//! Character-level string operations with exact specifications.
use vstd::prelude::*;

verus! {

/// `needle` occurs in `hay` starting at position `i`.
pub open spec fn occurs_at(hay: Seq<char>, needle: Seq<char>, i: int) -> bool {
    0 <= i && i + needle.len() <= hay.len() && hay.subrange(i, i + needle.len()) == needle
}

/// `needle` occurs somewhere in `hay`.
pub open spec fn contains_seq(hay: Seq<char>, needle: Seq<char>) -> bool {
    exists|i: int| occurs_at(hay, needle, i)
}

pub open spec fn starts_with(hay: Seq<char>, prefix: Seq<char>) -> bool {
    prefix.len() <= hay.len() && hay.subrange(0, prefix.len() as int) == prefix
}

pub open spec fn ends_with(hay: Seq<char>, suffix: Seq<char>) -> bool {
    suffix.len() <= hay.len() && hay.subrange(hay.len() - suffix.len(), hay.len() as int)
        == suffix
}

/// Position of the first occurrence of `needle` in `hay` at or after `from`, or -1.
pub open spec fn find_from(hay: Seq<char>, needle: Seq<char>, from: int) -> int
    decreases hay.len() + 1 - from,
{
    if from < 0 || from + needle.len() > hay.len() {
        -1
    } else if occurs_at(hay, needle, from) {
        from
    } else {
        find_from(hay, needle, from + 1)
    }
}

/// Position of the first occurrence of `needle` in `hay`, or -1.
pub open spec fn find(hay: Seq<char>, needle: Seq<char>) -> int {
    find_from(hay, needle, 0)
}

pub proof fn lemma_find_from(hay: Seq<char>, needle: Seq<char>, from: int)
    requires
        0 <= from,
    ensures
        find_from(hay, needle, from) == -1 || from <= find_from(hay, needle, from),
        find_from(hay, needle, from) >= 0 ==> occurs_at(hay, needle, find_from(hay, needle, from)),
        forall|j: int|
            from <= j && (find_from(hay, needle, from) == -1 || j < find_from(hay, needle, from))
                ==> !occurs_at(hay, needle, j),
    decreases hay.len() + 1 - from,
{
    if from + needle.len() > hay.len() {
    } else if occurs_at(hay, needle, from) {
    } else {
        lemma_find_from(hay, needle, from + 1);
    }
}

pub proof fn lemma_find(hay: Seq<char>, needle: Seq<char>)
    ensures
        find(hay, needle) >= -1,
        find(hay, needle) >= 0 ==> occurs_at(hay, needle, find(hay, needle)),
        forall|j: int|
            (find(hay, needle) == -1 || j < find(hay, needle)) ==> !occurs_at(hay, needle, j),
        contains_seq(hay, needle) <==> find(hay, needle) >= 0,
{
    lemma_find_from(hay, needle, 0);
}

/// The characters of a string slice.
pub fn chars_of(s: &str) -> (v: Vec<char>)
    ensures
        v@ == s@,
{
    let mut v: Vec<char> = Vec::new();
    for c in it: s.chars()
        invariant
            v@ == it.seq().take(it.index() as int),
            it.seq() == s@,
    {
        v.push(c);
    }
    v
}

/// `needle` occurs in `hay` at position `i`.
pub fn occurs_at_exec(hay: &[char], needle: &[char], i: usize) -> (b: bool)
    ensures
        b == occurs_at(hay@, needle@, i as int),
{
    if i > hay.len() || needle.len() > hay.len() - i {
        return false;
    }
    let mut j: usize = 0;
    while j < needle.len()
        invariant
            i as int + needle.len() as int <= hay.len() as int,
            hay.len() == hay@.len(),
            needle.len() == needle@.len(),
            j <= needle@.len(),
            forall|k: int| 0 <= k < j ==> hay@[i + k] == needle@[k],
        decreases needle@.len() - j,
    {
        if hay[i + j] != needle[j] {
            assert(hay@.subrange(i as int, i + needle@.len())[j as int] != needle@[j as int]);
            return false;
        }
        j = j + 1;
    }
    assert(hay@.subrange(i as int, i + needle@.len()) =~= needle@);
    true
}

/// Position of the first occurrence of `needle` in `hay` at or after `from`.
pub fn find_from_exec(hay: &[char], needle: &[char], from: usize) -> (r: Option<usize>)
    ensures
        match r {
            Some(i) => i as int == find_from(hay@, needle@, from as int),
            None => find_from(hay@, needle@, from as int) == -1,
        },
{
    if needle.len() > hay.len() {
        return None;
    }
    let mut i = from;
    while i <= hay.len() - needle.len()
        invariant
            from <= i,
            needle.len() <= hay.len(),
            find_from(hay@, needle@, from as int) == find_from(hay@, needle@, i as int),
        decreases hay@.len() - i,
    {
        if occurs_at_exec(hay, needle, i) {
            return Some(i);
        }
        assert(needle@.len() > 0) by {
            if needle@.len() == 0 {
                assert(hay@.subrange(i as int, i as int) =~= needle@);
            }
        }
        i = i + 1;
    }
    None
}

/// Whether `needle` occurs in `hay`.
pub fn contains_chars(hay: &[char], needle: &[char]) -> (b: bool)
    ensures
        b == contains_seq(hay@, needle@),
{
    proof {
        lemma_find(hay@, needle@);
    }
    match find_from_exec(hay, needle, 0) {
        Some(_) => true,
        None => false,
    }
}


/// Position of the last occurrence of `needle` in `hay` at or before `i`, or -1.
pub open spec fn rfind_from(hay: Seq<char>, needle: Seq<char>, i: int) -> int
    decreases i + 1,
{
    if i < 0 {
        -1
    } else if occurs_at(hay, needle, i) {
        i
    } else {
        rfind_from(hay, needle, i - 1)
    }
}

/// Position of the last occurrence of `needle` in `hay`, or -1.
pub open spec fn rfind(hay: Seq<char>, needle: Seq<char>) -> int {
    rfind_from(hay, needle, hay.len() - needle.len())
}

pub proof fn lemma_rfind_from(hay: Seq<char>, needle: Seq<char>, i: int)
    ensures
        rfind_from(hay, needle, i) == -1 || (0 <= rfind_from(hay, needle, i) <= i),
        rfind_from(hay, needle, i) >= 0 ==> occurs_at(hay, needle, rfind_from(hay, needle, i)),
        forall|j: int| rfind_from(hay, needle, i) < j <= i ==> !occurs_at(hay, needle, j),
    decreases i + 1,
{
    if i < 0 {
    } else if occurs_at(hay, needle, i) {
    } else {
        lemma_rfind_from(hay, needle, i - 1);
    }
}

pub proof fn lemma_rfind(hay: Seq<char>, needle: Seq<char>)
    ensures
        rfind(hay, needle) >= -1,
        rfind(hay, needle) >= 0 ==> occurs_at(hay, needle, rfind(hay, needle)),
        forall|j: int| rfind(hay, needle) < j ==> !occurs_at(hay, needle, j),
        contains_seq(hay, needle) <==> rfind(hay, needle) >= 0,
{
    lemma_rfind_from(hay, needle, hay.len() - needle.len());
}

/// Searching a suffix of `hay` is searching `hay` from the suffix's start.
pub proof fn lemma_find_skip(hay: Seq<char>, needle: Seq<char>, pos: int, j: int)
    requires
        0 <= pos <= hay.len(),
        0 <= j,
    ensures
        find_from(hay.skip(pos), needle, j) == (if find_from(hay, needle, pos + j) < 0 {
            -1
        } else {
            find_from(hay, needle, pos + j) - pos
        }),
    decreases hay.len() + 1 - pos - j,
{
    let t = hay.skip(pos);
    if j + needle.len() > t.len() {
    } else {
        assert(t.subrange(j, j + needle.len()) =~= hay.subrange(pos + j, pos + j + needle.len()));
        if occurs_at(t, needle, j) {
        } else {
            lemma_find_skip(hay, needle, pos, j + 1);
        }
    }
}

/// The pieces of `s` between the non-overlapping occurrences of `sep`, scanning
/// from the left (the pieces that `str::split` yields).
pub open spec fn split_seq(s: Seq<char>, sep: Seq<char>) -> Seq<Seq<char>>
    decreases s.len(),
{
    let k = find(s, sep);
    if sep.len() == 0 || k < 0 {
        seq![s]
    } else {
        proof {
            lemma_find(s, sep);
        }
        seq![s.take(k)] + split_seq(s.skip(k + sep.len()), sep)
    }
}

pub proof fn lemma_split_nonempty(s: Seq<char>, sep: Seq<char>)
    ensures
        split_seq(s, sep).len() >= 1,
        split_seq(s, sep)[0] == (if sep.len() == 0 || find(s, sep) < 0 {
            s
        } else {
            s.take(find(s, sep))
        }),
{
    lemma_find(s, sep);
}

/// A text that contains the separator splits into at least two pieces.
pub proof fn lemma_split_two(s: Seq<char>, sep: Seq<char>)
    requires
        sep.len() > 0,
        contains_seq(s, sep),
    ensures
        split_seq(s, sep).len() >= 2,
{
    lemma_find(s, sep);
    lemma_split_nonempty(s.skip(find(s, sep) + sep.len()), sep);
}

/// The first piece of `s` when split at `sep`.
pub open spec fn first_segment(s: Seq<char>, sep: Seq<char>) -> Seq<char> {
    if sep.len() == 0 || find(s, sep) < 0 {
        s
    } else {
        s.take(find(s, sep))
    }
}

/// The pieces joined with `sep` between consecutive pieces.
pub open spec fn join_seq(parts: Seq<Seq<char>>, sep: Seq<char>) -> Seq<char>
    decreases parts.len(),
{
    if parts.len() == 0 {
        Seq::empty()
    } else if parts.len() == 1 {
        parts[0]
    } else {
        join_seq(parts.drop_last(), sep) + sep + parts.last()
    }
}

/// Unicode `White_Space` characters (the characters of `char::is_whitespace`).
pub open spec fn is_whitespace(c: char) -> bool {
    ||| c == '\t'
    ||| c == '\n'
    ||| c == '\u{0B}'
    ||| c == '\u{0C}'
    ||| c == '\r'
    ||| c == ' '
    ||| c == '\u{85}'
    ||| c == '\u{A0}'
    ||| c == '\u{1680}'
    ||| ('\u{2000}' <= c && c <= '\u{200A}')
    ||| c == '\u{2028}'
    ||| c == '\u{2029}'
    ||| c == '\u{202F}'
    ||| c == '\u{205F}'
    ||| c == '\u{3000}'
}

pub open spec fn trim_start(s: Seq<char>) -> Seq<char>
    decreases s.len(),
{
    if s.len() > 0 && is_whitespace(s[0]) {
        trim_start(s.drop_first())
    } else {
        s
    }
}

pub open spec fn trim_end(s: Seq<char>) -> Seq<char>
    decreases s.len(),
{
    if s.len() > 0 && is_whitespace(s.last()) {
        trim_end(s.drop_last())
    } else {
        s
    }
}

/// `s` without leading and trailing whitespace.
pub open spec fn trim(s: Seq<char>) -> Seq<char> {
    trim_end(trim_start(s))
}

/// `s` with every leading copy of `p` removed (`str::trim_start_matches`).
pub open spec fn strip_all_prefix(s: Seq<char>, p: Seq<char>) -> Seq<char>
    decreases s.len(),
{
    if p.len() > 0 && starts_with(s, p) {
        strip_all_prefix(s.skip(p.len() as int), p)
    } else {
        s
    }
}

/// `s` with every trailing copy of `p` removed (`str::trim_end_matches`).
pub open spec fn strip_all_suffix(s: Seq<char>, p: Seq<char>) -> Seq<char>
    decreases s.len(),
{
    if p.len() > 0 && ends_with(s, p) {
        strip_all_suffix(s.take(s.len() - p.len()), p)
    } else {
        s
    }
}

/// Every `from` in `s` replaced by `to`.
pub open spec fn replace_char(s: Seq<char>, from: char, to: char) -> Seq<char> {
    s.map_values(|c: char| if c == from { to } else { c })
}

/// `s` without the characters of `drop`.
pub open spec fn remove_chars(s: Seq<char>, drop: Seq<char>) -> Seq<char>
    decreases s.len(),
{
    if s.len() == 0 {
        s
    } else if drop.contains(s.last()) {
        remove_chars(s.drop_last(), drop)
    } else {
        remove_chars(s.drop_last(), drop).push(s.last())
    }
}

/// `String::push`: appends one character.
#[verifier::external_body]
pub(crate) fn push_char(s: &mut String, c: char)
    ensures
        final(s)@ == old(s)@.push(c),
{
    s.push(c);
}

/// A string holding the given characters.
pub fn string_from(v: &[char]) -> (s: String)
    ensures
        s@ == v@,
{
    let mut s = String::new();
    for i in 0..v.len()
        invariant
            s@ == v@.take(i as int),
    {
        push_char(&mut s, v[i]);
        assert(v@.take(i + 1) =~= v@.take(i as int).push(v@[i as int]));
    }
    assert(v@.take(v@.len() as int) =~= v@);
    s
}

/// Equality of the character sequences of two slices.
pub fn chars_eq(a: &[char], b: &[char]) -> (r: bool)
    ensures
        r == (a@ == b@),
{
    if a.len() != b.len() {
        return false;
    }
    for i in 0..a.len()
        invariant
            a@.len() == b@.len(),
            forall|k: int| 0 <= k < i ==> a@[k] == b@[k],
    {
        if a[i] != b[i] {
            return false;
        }
    }
    assert(a@ =~= b@);
    true
}

/// Equality of two string slices.
pub fn str_eq(a: &str, b: &str) -> (r: bool)
    ensures
        r == (a@ == b@),
{
    let va = chars_of(a);
    let vb = chars_of(b);
    chars_eq(va.as_slice(), vb.as_slice())
}

/// Whether `needle` occurs in `hay`.
pub fn str_contains(hay: &str, needle: &str) -> (r: bool)
    ensures
        r == contains_seq(hay@, needle@),
{
    let h = chars_of(hay);
    let n = chars_of(needle);
    contains_chars(h.as_slice(), n.as_slice())
}

pub fn starts_with_chars(hay: &[char], prefix: &[char]) -> (r: bool)
    ensures
        r == starts_with(hay@, prefix@),
{
    if prefix.len() > hay.len() {
        return false;
    }
    occurs_at_exec(hay, prefix, 0)
}

pub fn ends_with_chars(hay: &[char], suffix: &[char]) -> (r: bool)
    ensures
        r == ends_with(hay@, suffix@),
{
    if suffix.len() > hay.len() {
        return false;
    }
    occurs_at_exec(hay, suffix, hay.len() - suffix.len())
}

pub fn str_starts_with(hay: &str, prefix: &str) -> (r: bool)
    ensures
        r == starts_with(hay@, prefix@),
{
    let h = chars_of(hay);
    let p = chars_of(prefix);
    starts_with_chars(h.as_slice(), p.as_slice())
}

pub fn str_ends_with(hay: &str, suffix: &str) -> (r: bool)
    ensures
        r == ends_with(hay@, suffix@),
{
    let h = chars_of(hay);
    let p = chars_of(suffix);
    ends_with_chars(h.as_slice(), p.as_slice())
}

/// Position of the last occurrence of `needle` in `hay`.
pub fn rfind_exec(hay: &[char], needle: &[char]) -> (r: Option<usize>)
    ensures
        match r {
            Some(i) => i as int == rfind(hay@, needle@),
            None => rfind(hay@, needle@) == -1,
        },
{
    if needle.len() > hay.len() {
        return None;
    }
    let mut i: usize = hay.len() - needle.len();
    loop
        invariant
            i <= hay@.len() - needle@.len(),
            needle@.len() <= hay@.len(),
            rfind(hay@, needle@) == rfind_from(hay@, needle@, i as int),
        decreases i,
    {
        if occurs_at_exec(hay, needle, i) {
            return Some(i);
        }
        if i == 0 {
            assert(rfind_from(hay@, needle@, -1) == -1);
            return None;
        }
        i = i - 1;
    }
}

/// The characters `s[from..to]`.
pub fn subvec(s: &[char], from: usize, to: usize) -> (v: Vec<char>)
    requires
        from <= to <= s@.len(),
    ensures
        v@ == s@.subrange(from as int, to as int),
{
    let mut v: Vec<char> = Vec::new();
    let mut i = from;
    while i < to
        invariant
            from <= i <= to,
            to <= s@.len(),
            v@ == s@.subrange(from as int, i as int),
        decreases to - i,
    {
        v.push(s[i]);
        assert(s@.subrange(from as int, i + 1) =~= s@.subrange(from as int, i as int).push(
            s@[i as int],
        ));
        i = i + 1;
    }
    v
}

/// The character sequences of a list of character vectors.
pub open spec fn views(v: Seq<Vec<char>>) -> Seq<Seq<char>> {
    v.map_values(|x: Vec<char>| x@)
}

/// The pieces of `s` between the occurrences of `sep` (`str::split`).
pub fn split_chars(s: &[char], sep: &[char]) -> (parts: Vec<Vec<char>>)
    requires
        sep@.len() > 0,
    ensures
        views(parts@) == split_seq(s@, sep@),
{
    let mut parts: Vec<Vec<char>> = Vec::new();
    let mut pos: usize = 0;
    assert(s@.skip(0) =~= s@);
    loop
        invariant
            pos <= s@.len(),
            sep@.len() > 0,
            views(parts@) + split_seq(s@.skip(pos as int), sep@) == split_seq(s@, sep@),
        decreases s@.len() - pos,
    {
        let ghost rest = s@.skip(pos as int);
        proof {
            lemma_find_skip(s@, sep@, pos as int, 0);
            lemma_find_from(s@, sep@, pos as int);
        }
        match find_from_exec(s, sep, pos) {
            Some(k) => {
                assert(pos <= k && k + sep@.len() <= s@.len());
                let seg = subvec(s, pos, k);
                proof {
                    assert(rest.take(k - pos) =~= seg@);
                    assert(rest.skip(k - pos + sep@.len()) =~= s@.skip(k + sep@.len()));
                }
                let ghost old_parts = parts@;
                parts.push(seg);
                assert(views(parts@) =~= views(old_parts).push(seg@));
                assert(k + sep.len() <= s.len());
                pos = k + sep.len();
            }
            None => {
                let seg = subvec(s, pos, s.len());
                assert(rest =~= seg@);
                let ghost old_parts = parts@;
                parts.push(seg);
                assert(views(parts@) =~= views(old_parts).push(seg@));
                return parts;
            }
        }
    }
}

/// The pieces joined with `sep` (`[T]::join`).
pub fn join_chars(parts: &Vec<Vec<char>>, sep: &[char]) -> (r: Vec<char>)
    ensures
        r@ == join_seq(views(parts@), sep@),
{
    let mut r: Vec<char> = Vec::new();
    let ghost pv = views(parts@);
    for i in 0..parts.len()
        invariant
            pv == views(parts@),
            pv.len() == parts@.len(),
            r@ == join_seq(pv.take(i as int), sep@),
    {
        assert(pv.take(i + 1).drop_last() =~= pv.take(i as int));
        if i > 0 {
            let mut j: usize = 0;
            let ghost before = r@;
            while j < sep.len()
                invariant
                    j <= sep@.len(),
                    r@ == before + sep@.take(j as int),
                decreases sep@.len() - j,
            {
                r.push(sep[j]);
                assert(sep@.take(j + 1) =~= sep@.take(j as int).push(sep@[j as int]));
                j = j + 1;
            }
            assert(sep@.take(sep@.len() as int) =~= sep@);
        }
        let ghost before2 = r@;
        let part = &parts[i];
        let mut j: usize = 0;
        while j < part.len()
            invariant
                j <= part@.len(),
                r@ == before2 + part@.take(j as int),
            decreases part@.len() - j,
        {
            r.push(part[j]);
            assert(part@.take(j + 1) =~= part@.take(j as int).push(part@[j as int]));
            j = j + 1;
        }
        assert(part@.take(part@.len() as int) =~= part@);
        assert(pv[i as int] == part@);
        if i == 0 {
            assert(r@ =~= join_seq(pv.take(1), sep@));
        } else {
            assert(pv.take(i + 1).last() == pv[i as int]);
            assert(r@ =~= join_seq(pv.take(i + 1), sep@));
        }
    }
    assert(pv.take(pv.len() as int) =~= pv);
    r
}

/// Every `from` replaced by `to`.
pub fn replace_char_exec(s: &[char], from: char, to: char) -> (r: Vec<char>)
    ensures
        r@ == replace_char(s@, from, to),
{
    let mut r: Vec<char> = Vec::new();
    for i in 0..s.len()
        invariant
            r@ =~= replace_char(s@.take(i as int), from, to),
    {
        if s[i] == from {
            r.push(to);
        } else {
            r.push(s[i]);
        }
        assert(s@.take(i + 1) =~= s@.take(i as int).push(s@[i as int]));
    }
    assert(s@.take(s@.len() as int) =~= s@);
    r
}

/// `s` without the characters of `drop`.
pub fn remove_chars_exec(s: &[char], drop: &[char]) -> (r: Vec<char>)
    ensures
        r@ == remove_chars(s@, drop@),
{
    let mut r: Vec<char> = Vec::new();
    for i in 0..s.len()
        invariant
            r@ == remove_chars(s@.take(i as int), drop@),
    {
        let mut found = false;
        for j in 0..drop.len()
            invariant
                i < s@.len(),
                found == (exists|k: int| 0 <= k < j && drop@[k] == s@[i as int]),
        {
            if drop[j] == s[i] {
                found = true;
            }
        }
        proof {
            assert(s@.take(i + 1).drop_last() =~= s@.take(i as int));
            if found {
                let k = choose|k: int| 0 <= k < drop@.len() && drop@[k] == s@[i as int];
                assert(drop@.contains(s@[i as int]));
            }
        }
        if !found {
            r.push(s[i]);
        }
    }
    assert(s@.take(s@.len() as int) =~= s@);
    r
}

pub fn is_whitespace_exec(c: char) -> (r: bool)
    ensures
        r == is_whitespace(c),
{
    c == '\t' || c == '\n' || c == '\u{0B}' || c == '\u{0C}' || c == '\r' || c == ' ' || c
        == '\u{85}' || c == '\u{A0}' || c == '\u{1680}' || ('\u{2000}' <= c && c <= '\u{200A}')
        || c == '\u{2028}' || c == '\u{2029}' || c == '\u{202F}' || c == '\u{205F}' || c
        == '\u{3000}'
}

/// `s` without leading and trailing whitespace (`str::trim`).
pub fn trim_exec(s: &[char]) -> (r: Vec<char>)
    ensures
        r@ == trim(s@),
{
    let mut lo: usize = 0;
    assert(s@.skip(0) =~= s@);
    while lo < s.len() && is_whitespace_exec(s[lo])
        invariant
            lo <= s@.len(),
            trim_start(s@) == trim_start(s@.skip(lo as int)),
        decreases s@.len() - lo,
    {
        assert(s@.skip(lo as int).drop_first() =~= s@.skip(lo + 1));
        lo = lo + 1;
    }
    assert(trim_start(s@.skip(lo as int)) == s@.skip(lo as int));
    let mut hi: usize = s.len();
    while hi > lo && is_whitespace_exec(s[hi - 1])
        invariant
            lo <= hi <= s@.len(),
            trim(s@) == trim_end(s@.subrange(lo as int, hi as int)),
        decreases hi,
    {
        assert(s@.subrange(lo as int, hi as int).drop_last() =~= s@.subrange(lo as int, hi - 1));
        hi = hi - 1;
    }
    assert(s@.skip(lo as int) =~= s@.subrange(lo as int, s@.len() as int));
    subvec(s, lo, hi)
}

/// `s` with every leading copy of `p` removed.
pub fn strip_all_prefix_exec(s: &[char], p: &[char]) -> (r: Vec<char>)
    ensures
        r@ == strip_all_prefix(s@, p@),
{
    let mut lo: usize = 0;
    assert(s@.skip(0) =~= s@);
    if p.len() == 0 {
        return subvec(s, 0, s.len());
    }
    while lo <= s.len() && p.len() <= s.len() - lo && occurs_at_exec(s, p, lo)
        invariant
            lo <= s@.len(),
            p@.len() > 0,
            strip_all_prefix(s@, p@) == strip_all_prefix(s@.skip(lo as int), p@),
        decreases s@.len() - lo,
    {
        assert(s@.skip(lo as int).subrange(0, p@.len() as int) =~= s@.subrange(
            lo as int,
            lo + p@.len(),
        ));
        assert(s@.skip(lo as int).skip(p@.len() as int) =~= s@.skip(lo + p@.len()));
        lo = lo + p.len();
    }
    proof {
        if p@.len() <= s@.len() - lo {
            assert(s@.skip(lo as int).subrange(0, p@.len() as int) =~= s@.subrange(
                lo as int,
                lo + p@.len(),
            ));
        }
    }
    assert(s@.skip(lo as int) =~= s@.subrange(lo as int, s@.len() as int));
    subvec(s, lo, s.len())
}

/// `s` with every trailing copy of `p` removed.
pub fn strip_all_suffix_exec(s: &[char], p: &[char]) -> (r: Vec<char>)
    ensures
        r@ == strip_all_suffix(s@, p@),
{
    let mut hi: usize = s.len();
    assert(s@.take(s@.len() as int) =~= s@);
    if p.len() == 0 {
        return subvec(s, 0, s.len());
    }
    while p.len() <= hi && occurs_at_exec(s, p, hi - p.len())
        invariant
            hi <= s@.len(),
            p@.len() > 0,
            strip_all_suffix(s@, p@) == strip_all_suffix(s@.take(hi as int), p@),
        decreases hi,
    {
        assert(s@.take(hi as int).subrange(hi - p@.len(), hi as int) =~= s@.subrange(
            hi - p@.len(),
            hi - p@.len() + p@.len(),
        ));
        assert(s@.take(hi as int).take(hi - p@.len()) =~= s@.take(hi - p@.len()));
        hi = hi - p.len();
    }
    proof {
        if p@.len() <= hi {
            assert(s@.take(hi as int).subrange(hi - p@.len(), hi as int) =~= s@.subrange(
                hi - p@.len(),
                hi - p@.len() + p@.len(),
            ));
        }
    }
    assert(s@.take(hi as int) =~= s@.subrange(0, hi as int));
    subvec(s, 0, hi)
}

/// The decimal digit for `d` (below ten).
pub open spec fn digit_char(d: nat) -> char {
    if d == 0 {
        '0'
    } else if d == 1 {
        '1'
    } else if d == 2 {
        '2'
    } else if d == 3 {
        '3'
    } else if d == 4 {
        '4'
    } else if d == 5 {
        '5'
    } else if d == 6 {
        '6'
    } else if d == 7 {
        '7'
    } else if d == 8 {
        '8'
    } else {
        '9'
    }
}

/// The decimal notation of `n`, without leading zeros.
pub open spec fn decimal(n: nat) -> Seq<char>
    decreases n,
{
    if n < 10 {
        seq![digit_char(n)]
    } else {
        decimal(n / 10).push(digit_char(n % 10))
    }
}

fn digit_exec(d: u64) -> (c: char)
    requires
        d < 10,
    ensures
        c == digit_char(d as nat),
{
    if d == 0 {
        '0'
    } else if d == 1 {
        '1'
    } else if d == 2 {
        '2'
    } else if d == 3 {
        '3'
    } else if d == 4 {
        '4'
    } else if d == 5 {
        '5'
    } else if d == 6 {
        '6'
    } else if d == 7 {
        '7'
    } else if d == 8 {
        '8'
    } else {
        '9'
    }
}

fn push_decimal(out: &mut String, n: u64)
    ensures
        final(out)@ == old(out)@ + decimal(n as nat),
    decreases n,
{
    if n < 10 {
        push_char(out, digit_exec(n));
        assert(decimal(n as nat) =~= seq![digit_char(n as nat)]);
    } else {
        push_decimal(out, n / 10);
        push_char(out, digit_exec(n % 10));
    }
}

/// The decimal notation of `n` (`n.to_string()`).
pub fn decimal_string(n: u64) -> (s: String)
    ensures
        s@ == decimal(n as nat),
{
    let mut s = String::new();
    push_decimal(&mut s, n);
    assert(Seq::<char>::empty() + decimal(n as nat) =~= decimal(n as nat));
    s
}

} // verus!
