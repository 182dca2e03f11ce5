//! File paths as `/`-separated text: their components, file names and stems,
//! and the module path that a source file's place in its crate gives it.
use vstd::prelude::*;

use crate::text::chars_of;
use crate::text::chars_eq;
use crate::text::join_chars;
use crate::text::join_seq;
use crate::text::find;
use crate::text::find_from;
use crate::text::occurs_at;
use crate::text::rfind;
use crate::text::rfind_exec;
use crate::text::lemma_rfind;
use crate::text::split_chars;
use crate::text::split_seq;
use crate::text::lemma_split_nonempty;
use crate::text::str_eq;
use crate::text::string_from;
use crate::text::subvec;
use crate::text::views;

verus! {

/// The segments after the first that name a component: neither empty (repeated
/// or trailing separators) nor `.`.
pub open spec fn kept_segments(segs: Seq<Seq<char>>) -> Seq<Seq<char>>
    decreases segs.len(),
{
    if segs.len() == 0 {
        Seq::empty()
    } else {
        let l = segs.last();
        if l.len() > 0 && l != "."@ {
            kept_segments(segs.drop_last()).push(l)
        } else {
            kept_segments(segs.drop_last())
        }
    }
}

/// The first component: `/` for an absolute path, a leading `.` or the first
/// name; none for an empty path.
pub open spec fn head_component(p: Seq<char>, first: Seq<char>) -> Seq<Seq<char>> {
    if first.len() == 0 && p.len() > 0 {
        seq!["/"@]
    } else if first.len() > 0 {
        seq![first]
    } else {
        Seq::empty()
    }
}

/// The components of a path, as `Path::components` gives them: a root `/`, a
/// leading `.`, then each name, with repeated separators, inner `.`s and a
/// trailing separator left out.
pub open spec fn path_components(p: Seq<char>) -> Seq<Seq<char>> {
    let segs = split_seq(p, "/"@);
    head_component(p, segs[0]) + kept_segments(segs.skip(1))
}

/// The last component when it is a name (`Path::file_name`).
pub open spec fn file_name(p: Seq<char>) -> Option<Seq<char>> {
    let c = path_components(p);
    if c.len() == 0 {
        None
    } else {
        let l = c.last();
        if l == "/"@ || l == "."@ || l == ".."@ {
            None
        } else {
            Some(l)
        }
    }
}

/// A file name without its extension: the part before the last `.`, or the
/// whole name when it has no `.` after its first character.
pub open spec fn stem_of_name(name: Seq<char>) -> Seq<char> {
    let d = rfind(name, "."@);
    if d <= 0 {
        name
    } else {
        name.take(d)
    }
}

/// `Path::file_stem`.
pub open spec fn file_stem(p: Seq<char>) -> Option<Seq<char>> {
    match file_name(p) {
        Some(n) => Some(stem_of_name(n)),
        None => None,
    }
}

fn slash() -> (v: Vec<char>)
    ensures
        v@ == "/"@,
        v@.len() == 1,
{
    proof {
        reveal_strlit("/");
    }
    chars_of("/")
}

/// The components of the path `p`.
pub fn components_of(p: &str) -> (r: Vec<Vec<char>>)
    ensures
        views(r@) == path_components(p@),
{
    let pc = chars_of(p);
    let sep = slash();
    let segs = split_chars(pc.as_slice(), sep.as_slice());
    let ghost sv = views(segs@);
    proof {
        lemma_split_nonempty(p@, "/"@);
    }
    let mut r: Vec<Vec<char>> = Vec::new();
    proof {
        assert(sv[0] == segs@[0]@);
    }
    if segs[0].len() == 0 && pc.len() > 0 {
        let s = slash();
        r.push(s);
        assert(views(r@) =~= seq![s@]);
    } else if segs[0].len() > 0 {
        let s = subvec(segs[0].as_slice(), 0, segs[0].len());
        assert(s@ =~= segs@[0]@);
        r.push(s);
        assert(views(r@) =~= seq![s@]);
    } else {
        assert(views(r@) =~= Seq::<Seq<char>>::empty());
    }
    let ghost head = views(r@);
    proof {
        assert(head =~= head_component(p@, sv[0]));
    }
    let dot = chars_of(".");
    let mut i: usize = 1;
    while i < segs.len()
        invariant
            1 <= i <= segs@.len(),
            sv == views(segs@),
            dot@ == "."@,
            views(r@) == head + kept_segments(sv.skip(1).take(i - 1)),
        decreases segs@.len() - i,
    {
        let seg = &segs[i];
        proof {
            assert(sv.skip(1).take(i as int).drop_last() =~= sv.skip(1).take(i - 1));
            assert(sv.skip(1).take(i as int).last() == seg@);
        }
        if seg.len() > 0 && !chars_eq(seg.as_slice(), dot.as_slice()) {
            let ghost before = views(r@);
            let x = subvec(seg.as_slice(), 0, seg.len());
            assert(x@ =~= seg@);
            r.push(x);
            proof {
                assert(views(r@) =~= before.push(seg@));
            }
        }
        i = i + 1;
    }
    proof {
        assert(sv.skip(1).take(segs@.len() - 1) =~= sv.skip(1));
    }
    r
}

/// The file name of `p`.
pub fn file_name_of(p: &str) -> (r: Option<Vec<char>>)
    ensures
        match r {
            Some(n) => file_name(p@) == Some(n@),
            None => file_name(p@) is None,
        },
{
    let comps = components_of(p);
    if comps.len() == 0 {
        return None;
    }
    let last = &comps[comps.len() - 1];
    proof {
        assert(views(comps@).last() == last@);
    }
    let dot = chars_of(".");
    let dots = chars_of("..");
    let sl = slash();
    if chars_eq(last.as_slice(), sl.as_slice()) || chars_eq(last.as_slice(), dot.as_slice())
        || chars_eq(last.as_slice(), dots.as_slice()) {
        None
    } else {
        Some(subvec(last.as_slice(), 0, last.len()))
    }
}

/// The stem of the file name `name`.
pub fn stem_of(name: &[char]) -> (r: Vec<char>)
    ensures
        r@ == stem_of_name(name@),
{
    let dot = chars_of(".");
    proof {
        lemma_rfind(name@, "."@);
    }
    match rfind_exec(name, dot.as_slice()) {
        Some(d) => {
            if d == 0 {
                subvec(name, 0, name.len())
            } else {
                subvec(name, 0, d)
            }
        },
        None => subvec(name, 0, name.len()),
    }
}

/// The stem of the file that `p` names.
pub fn file_stem_of(p: &str) -> (r: Option<String>)
    ensures
        match r {
            Some(s) => file_stem(p@) == Some(s@),
            None => file_stem(p@) is None,
        },
{
    match file_name_of(p) {
        Some(n) => {
            let s = stem_of(n.as_slice());
            Some(string_from(s.as_slice()))
        },
        None => None,
    }
}

/// The module named after a file: its stem, or `unknown`.
pub open spec fn file_module(p: Seq<char>) -> Seq<char> {
    match file_stem(p) {
        Some(s) => s,
        None => "unknown"@,
    }
}

/// The module named after the file at `file_path`: its stem, or `unknown`.
pub fn get_file_module(file_path: &str) -> (r: String)
    ensures
        r@ == file_module(file_path@),
{
    match file_stem_of(file_path) {
        Some(s) => s,
        None => String::from_str("unknown"),
    }
}

/// Directories that hold sources but are no module of their own.
pub open spec fn is_source_dir(c: Seq<char>) -> bool {
    c == "src"@ || c == "examples"@ || c == "tests"@ || c == "benches"@
}

/// The components of `cs` that are not source directories.
pub open spec fn module_components(cs: Seq<Seq<char>>) -> Seq<Seq<char>>
    decreases cs.len(),
{
    if cs.len() == 0 {
        Seq::empty()
    } else if is_source_dir(cs.last()) {
        module_components(cs.drop_last())
    } else {
        module_components(cs.drop_last()).push(cs.last())
    }
}

/// Files that stand for their directory's module rather than one of their own.
pub open spec fn is_module_root_file(c: Seq<char>) -> bool {
    c == "mod.rs"@ || c == "lib.rs"@ || c == "main.rs"@
}

/// Module names for the components of a file's path inside its crate: every
/// directory, then the file's stem unless it is a module-root file.
pub open spec fn module_parts(cs: Seq<Seq<char>>) -> Seq<Seq<char>> {
    if cs.len() == 0 {
        Seq::empty()
    } else if is_module_root_file(cs.last()) {
        cs.drop_last()
    } else {
        match file_stem(cs.last()) {
            Some(s) => cs.drop_last().push(s),
            None => cs.drop_last(),
        }
    }
}

/// The module path of a source file: the name of its crate, then the modules
/// that its path inside the crate gives, joined by `::`; `unknown` when the file
/// belongs to no crate.
pub open spec fn file_module_path(crate_name: Option<Seq<char>>, relative: Option<Seq<char>>) -> Seq<
    char,
> {
    match crate_name {
        None => "unknown"@,
        Some(c) => match relative {
            None => c,
            Some(rel) => join_seq(
                seq![c] + module_parts(module_components(path_components(rel))),
                "::"@,
            ),
        },
    }
}

/// A module-root file (`main.rs`, `lib.rs` or `mod.rs`) adds no module of its
/// own: its module path is the crate's name followed by the modules of its
/// directories alone.
pub proof fn lemma_module_root_file_path(c: Seq<char>, rel: Seq<char>)
    requires
        path_components(rel).len() > 0,
        path_components(rel).last() == "main.rs"@ || path_components(rel).last() == "lib.rs"@
            || path_components(rel).last() == "mod.rs"@,
    ensures
        file_module_path(Some(c), Some(rel)) == join_seq(
            seq![c] + module_components(path_components(rel).drop_last()),
            "::"@,
        ),
{
    let cs = path_components(rel);
    reveal_strlit("main.rs");
    reveal_strlit("lib.rs");
    reveal_strlit("mod.rs");
    reveal_strlit("src");
    reveal_strlit("examples");
    reveal_strlit("tests");
    reveal_strlit("benches");
    let l = cs.last();
    assert("src"@.len() == 3 && "tests"@.len() == 5 && "examples"@.len() == 8);
    assert("benches"@.len() == 7 && "benches"@[0] == 'b');
    assert(l[0] == 'm' || l[0] == 'l');
    assert(!is_source_dir(l)) by {
        assert(l != "src"@ && l != "tests"@ && l != "examples"@);
        assert(l[0] != "benches"@[0]);
    }
    assert(module_components(cs) == module_components(cs.drop_last()).push(l));
    assert(module_components(cs).last() == l);
    assert(module_components(cs).drop_last() =~= module_components(cs.drop_last()));
}

/// A crate-root file directly under `src` (`src/main.rs` or `src/lib.rs`) has
/// the crate's name alone as its module path, whatever the crate's name.
pub proof fn lemma_crate_root_file_path(c: Seq<char>, rel: Seq<char>)
    requires
        path_components(rel) == seq!["src"@, "main.rs"@] || path_components(rel) == seq![
            "src"@,
            "lib.rs"@,
        ],
    ensures
        file_module_path(Some(c), Some(rel)) == c,
{
    lemma_module_root_file_path(c, rel);
    reveal_strlit("src");
    let d = path_components(rel).drop_last();
    assert(d =~= seq!["src"@]);
    assert(d.drop_last() =~= Seq::<Seq<char>>::empty());
    assert(d.last() == "src"@);
    assert(is_source_dir(d.last()));
    assert(module_components(d.drop_last()) =~= Seq::<Seq<char>>::empty());
    assert(module_components(d) =~= Seq::<Seq<char>>::empty());
    assert(seq![c] + module_components(d) =~= seq![c]);
}

proof fn lemma_no_occurrence(hay: Seq<char>, needle: Seq<char>, from: int)
    requires
        0 <= from,
        needle.len() > 0,
        forall|k: int| from <= k < hay.len() ==> !occurs_at(hay, needle, k),
    ensures
        find_from(hay, needle, from) == -1,
    decreases hay.len() + 1 - from,
{
    if from + needle.len() <= hay.len() {
        lemma_no_occurrence(hay, needle, from + 1);
    }
}

/// The path `src/main.rs` has the components `src` and `main.rs`.
pub proof fn lemma_src_main_components()
    ensures
        path_components("src/main.rs"@) == seq!["src"@, "main.rs"@],
{
    reveal_strlit("src/main.rs");
    reveal_strlit("src");
    reveal_strlit("main.rs");
    reveal_strlit("/");
    reveal_strlit(".");
    let p = "src/main.rs"@;
    let sep = "/"@;
    assert(sep.len() == 1 && sep[0] == '/');
    assert(p.subrange(0, 1)[0] != sep[0]);
    assert(p.subrange(1, 2)[0] != sep[0]);
    assert(p.subrange(2, 3)[0] != sep[0]);
    assert(!occurs_at(p, sep, 0));
    assert(!occurs_at(p, sep, 1));
    assert(!occurs_at(p, sep, 2));
    assert(occurs_at(p, sep, 3)) by {
        assert(p.subrange(3, 4) =~= sep);
    }
    assert(find_from(p, sep, 3) == 3);
    assert(find_from(p, sep, 2) == 3);
    assert(find_from(p, sep, 1) == 3);
    assert(find_from(p, sep, 0) == 3);
    assert(find(p, sep) == 3);
    let rest = p.skip(4);
    assert(rest =~= "main.rs"@);
    assert(find(rest, sep) == -1) by {
        assert forall|k: int| 0 <= k < rest.len() implies !occurs_at(rest, sep, k) by {
            assert(rest.subrange(k, k + 1)[0] != sep[0]);
        }
        lemma_no_occurrence(rest, sep, 0);
    }
    assert(split_seq(rest, sep) =~= seq![rest]);
    assert(p.take(3) =~= "src"@);
    assert(split_seq(p, sep) =~= seq!["src"@, "main.rs"@]);
    let segs = split_seq(p, sep);
    assert(segs.skip(1) =~= seq!["main.rs"@]);
    assert(kept_segments(seq!["main.rs"@]) =~= seq!["main.rs"@]) by {
        let one = seq!["main.rs"@];
        assert(one.drop_last() =~= Seq::<Seq<char>>::empty());
        assert(kept_segments(one.drop_last()) =~= Seq::<Seq<char>>::empty());
        assert("main.rs"@.len() == 7 && "."@.len() == 1);
        assert(one.last() == "main.rs"@);
        assert(one.last() != "."@);
        assert(kept_segments(one) =~= kept_segments(one.drop_last()).push("main.rs"@));
    }
}

/// `src/main.rs` is the root of its crate: its module path is the crate's
/// name, for every crate name.
pub proof fn lemma_src_main_is_crate_root(c: Seq<char>)
    ensures
        file_module_path(Some(c), Some("src/main.rs"@)) == c,
{
    lemma_src_main_components();
    lemma_crate_root_file_path(c, "src/main.rs"@);
}

fn is_source_dir_exec(c: &Vec<char>) -> (b: bool)
    ensures
        b == is_source_dir(c@),
{
    let s = string_from(c.as_slice());
    str_eq(s.as_str(), "src") || str_eq(s.as_str(), "examples") || str_eq(s.as_str(), "tests")
        || str_eq(s.as_str(), "benches")
}

fn is_module_root_file_exec(c: &Vec<char>) -> (b: bool)
    ensures
        b == is_module_root_file(c@),
{
    let s = string_from(c.as_slice());
    str_eq(s.as_str(), "mod.rs") || str_eq(s.as_str(), "lib.rs") || str_eq(s.as_str(), "main.rs")
}

/// The module path of a source file, from the name of the crate that holds it
/// (`None` when no enclosing directory has a manifest) and its path relative to
/// the crate's directory.
pub fn get_file_module_path(crate_name: Option<&str>, relative_path: Option<&str>) -> (r: String)
    ensures
        r@ == file_module_path(
            match crate_name {
                Some(c) => Some(c@),
                None => None,
            },
            match relative_path {
                Some(p) => Some(p@),
                None => None,
            },
        ),
{
    let c = match crate_name {
        None => {
            return String::from_str("unknown");
        },
        Some(c) => c,
    };
    let rel = match relative_path {
        None => {
            return String::from_str(c);
        },
        Some(rel) => rel,
    };
    let comps = components_of(rel);
    let ghost cv = views(comps@);
    let mut kept: Vec<Vec<char>> = Vec::new();
    let mut i: usize = 0;
    while i < comps.len()
        invariant
            i <= comps@.len(),
            cv == views(comps@),
            views(kept@) == module_components(cv.take(i as int)),
        decreases comps@.len() - i,
    {
        proof {
            assert(cv.take(i + 1).drop_last() =~= cv.take(i as int));
            assert(cv.take(i + 1).last() == comps@[i as int]@);
        }
        if !is_source_dir_exec(&comps[i]) {
            let ghost before = views(kept@);
            let x = subvec(comps[i].as_slice(), 0, comps[i].len());
            assert(x@ =~= comps@[i as int]@);
            kept.push(x);
            proof {
                assert(views(kept@) =~= before.push(comps@[i as int]@));
            }
        }
        i = i + 1;
    }
    proof {
        assert(cv.take(cv.len() as int) =~= cv);
    }
    let ghost kv = views(kept@);
    let mut parts: Vec<Vec<char>> = Vec::new();
    let cc = chars_of(c);
    parts.push(cc);
    assert(views(parts@) =~= seq![c@]);
    if kept.len() > 0 {
        let n = kept.len();
        let mut j: usize = 0;
        while j + 1 < n
            invariant
                n == kept@.len(),
                n > 0,
                j + 1 <= n,
                kv == views(kept@),
                views(parts@) == seq![c@] + kv.take(j as int),
            decreases n - j,
        {
            let ghost before = views(parts@);
            let x = subvec(kept[j].as_slice(), 0, kept[j].len());
            assert(x@ =~= kept@[j as int]@);
            parts.push(x);
            proof {
                assert(kv.take(j + 1) =~= kv.take(j as int).push(kept@[j as int]@));
                assert(views(parts@) =~= before.push(kept@[j as int]@));
            }
            j = j + 1;
        }
        let last = &kept[n - 1];
        proof {
            assert(kv.take(j as int) =~= kv.drop_last());
            assert(kv.last() == last@);
        }
        let ghost mid = views(parts@);
        proof {
            assert(mid =~= seq![c@] + kv.drop_last());
        }
        if !is_module_root_file_exec(last) {
            let ls = string_from(last.as_slice());
            match file_stem_of(ls.as_str()) {
                Some(s) => {
                    parts.push(chars_of(s.as_str()));
                    proof {
                        assert(views(parts@) =~= mid.push(s@));
                    }
                },
                None => {},
            }
        }
        proof {
            assert(views(parts@) =~= seq![c@] + module_parts(kv));
        }
    } else {
        proof {
            assert(views(parts@) =~= seq![c@] + module_parts(kv));
        }
    }
    let sep = chars_of("::");
    let joined = join_chars(&parts, sep.as_slice());
    string_from(joined.as_slice())
}

/// The crate a file belongs to, from the names of the enclosing directories that
/// hold a manifest, innermost first: the first that has a name and is not the
/// outer workspace `trading-backend-poc`, else `unknown`.
pub open spec fn crate_from_manifest_dirs(names: Seq<Option<Seq<char>>>) -> Seq<char>
    decreases names.len(),
{
    if names.len() == 0 {
        "unknown"@
    } else {
        match names[0] {
            Some(n) => if n != "trading-backend-poc"@ {
                n
            } else {
                crate_from_manifest_dirs(names.skip(1))
            },
            None => crate_from_manifest_dirs(names.skip(1)),
        }
    }
}

/// The names of optional strings.
pub open spec fn opt_views(s: Seq<Option<String>>) -> Seq<Option<Seq<char>>> {
    s.map_values(
        |o: Option<String>|
            match o {
                Some(x) => Some(x@),
                None => None,
            },
    )
}

/// The crate a file belongs to, from the names of the enclosing directories that
/// hold a `Cargo.toml`, innermost first.
pub fn crate_name_from_manifest_dirs(names: &[Option<String>]) -> (r: String)
    ensures
        r@ == crate_from_manifest_dirs(opt_views(names@)),
{
    let ghost nv = opt_views(names@);
    assert(nv.skip(0) =~= nv);
    let mut i: usize = 0;
    while i < names.len()
        invariant
            i <= names@.len(),
            nv == opt_views(names@),
            crate_from_manifest_dirs(nv.skip(i as int)) == crate_from_manifest_dirs(nv),
        decreases names@.len() - i,
    {
        proof {
            assert(nv.skip(i as int)[0] == nv[i as int]);
            assert(nv.skip(i as int).skip(1) =~= nv.skip(i + 1));
        }
        match &names[i] {
            Some(n) => {
                if !str_eq(n.as_str(), "trading-backend-poc") {
                    return n.clone();
                }
            },
            None => {},
        }
        i = i + 1;
    }
    proof {
        assert(nv.skip(i as int).len() == 0);
    }
    String::from_str("unknown")
}

} // verus!
