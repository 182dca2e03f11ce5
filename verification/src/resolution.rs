//! Symbol resolution: edit distance between names, visibility parsing, symbol
//! kinds, and syntax-based resolution of function references.
use vstd::prelude::*;

use crate::text::chars_of;
use crate::text::starts_with;
use crate::text::str_eq;
use crate::text::str_starts_with;
use crate::text::string_from;
use crate::text::strip_all_prefix;
use crate::text::strip_all_prefix_exec;
use crate::text::strip_all_suffix;
use crate::text::strip_all_suffix_exec;
use crate::text::split_chars;
use crate::text::split_seq;
use crate::text::views;
use crate::text::lemma_split_nonempty;
use crate::table::NameTable;
use crate::workspace::CallType;
use crate::workspace::FunctionReference;
use crate::workspace::RustFunction;
use crate::workspace::RustType;
use vstd::utf8::encode_utf8;

verus! {

pub open spec fn min2(x: int, y: int) -> int {
    if x <= y {
        x
    } else {
        y
    }
}

/// Levenshtein distance: the least number of single-character insertions,
/// deletions and substitutions that turn `a` into `b`.
pub open spec fn edit_distance(a: Seq<char>, b: Seq<char>) -> int
    decreases a.len() + b.len(),
{
    if a.len() == 0 {
        b.len() as int
    } else if b.len() == 0 {
        a.len() as int
    } else {
        min2(
            min2(edit_distance(a.drop_last(), b) + 1, edit_distance(a, b.drop_last()) + 1),
            edit_distance(a.drop_last(), b.drop_last()) + if a.last() == b.last() {
                0int
            } else {
                1int
            },
        )
    }
}

pub proof fn lemma_edit_distance_bounds(a: Seq<char>, b: Seq<char>)
    ensures
        0 <= edit_distance(a, b),
        edit_distance(a, b) <= if a.len() >= b.len() {
            a.len() as int
        } else {
            b.len() as int
        },
    decreases a.len() + b.len(),
{
    if a.len() > 0 && b.len() > 0 {
        lemma_edit_distance_bounds(a.drop_last(), b);
        lemma_edit_distance_bounds(a, b.drop_last());
        lemma_edit_distance_bounds(a.drop_last(), b.drop_last());
    }
}

/// The distance of a sequence to itself is zero.
pub proof fn lemma_edit_distance_self(a: Seq<char>)
    ensures
        edit_distance(a, a) == 0,
    decreases a.len(),
{
    if a.len() > 0 {
        lemma_edit_distance_self(a.drop_last());
        lemma_edit_distance_bounds(a.drop_last(), a);
        lemma_edit_distance_bounds(a, a.drop_last());
    }
}

/// The distance to the empty sequence is the length.
pub proof fn lemma_edit_distance_empty(a: Seq<char>)
    ensures
        edit_distance(a, Seq::empty()) == a.len(),
        edit_distance(Seq::empty(), a) == a.len(),
{
}

/// The distance does not depend on the order of its arguments.
pub proof fn lemma_edit_distance_symmetric(a: Seq<char>, b: Seq<char>)
    ensures
        edit_distance(a, b) == edit_distance(b, a),
    decreases a.len() + b.len(),
{
    if a.len() > 0 && b.len() > 0 {
        lemma_edit_distance_symmetric(a.drop_last(), b);
        lemma_edit_distance_symmetric(a, b.drop_last());
        lemma_edit_distance_symmetric(a.drop_last(), b.drop_last());
    }
}

/// Simple Levenshtein distance implementation, over the characters of the two
/// strings.
pub fn levenshtein_distance(a: &str, b: &str) -> (d: usize)
    ensures
        d == edit_distance(a@, b@),
{
    let a_chars = chars_of(a);
    let b_chars = chars_of(b);
    let a_len = a_chars.len();
    let b_len = b_chars.len();
    if a_len == 0 {
        return b_len;
    }
    if b_len == 0 {
        return a_len;
    }
    let ghost sa = a_chars@;
    let ghost sb = b_chars@;
    // prev[k] holds the distance of a[..i] to b[..k + 1], for the current row i
    let mut prev: Vec<usize> = Vec::new();
    for k in 0..b_len
        invariant
            b_len == sb.len(),
            prev@.len() == k,
            forall|q: int| 0 <= q < k ==> prev@[q] == edit_distance(sa.take(0), sb.take(q + 1)),
    {
        proof {
            assert(sa.take(0).len() == 0);
        }
        prev.push(k + 1);
    }
    for ii in 0..a_len
        invariant
            a_len == sa.len(),
            b_len == sb.len(),
            b_len >= 1,
            sa == a_chars@,
            sb == b_chars@,
            prev@.len() == b_len,
            forall|q: int| 0 <= q < b_len ==> prev@[q] == edit_distance(sa.take(ii as int), sb.take(q + 1)),
    {
        let i = ii + 1;
        let mut cur: Vec<usize> = Vec::new();
        for jj in 0..b_len
            invariant
                i == ii + 1,
                ii < a_len,
                a_len == sa.len(),
                b_len == sb.len(),
                sa == a_chars@,
                sb == b_chars@,
                prev@.len() == b_len,
                cur@.len() == jj,
                forall|q: int| 0 <= q < b_len ==> prev@[q] == edit_distance(sa.take(ii as int), sb.take(q + 1)),
                forall|q: int| 0 <= q < jj ==> cur@[q] == edit_distance(sa.take(i as int), sb.take(q + 1)),
        {
            let ghost j = jj + 1;
            let ghost x = sa.take(i as int);
            let ghost y = sb.take(j);
            proof {
                assert(x.drop_last() =~= sa.take(i - 1));
                assert(y.drop_last() =~= sb.take(j - 1));
                assert(x.last() == sa[i - 1]);
                assert(y.last() == sb[j - 1]);
                lemma_edit_distance_bounds(x, y);
                assert(sb.take(0).len() == 0);
                assert(sa.take(i - 1).len() == i - 1);
            }
            let left: usize = if jj == 0 {
                i
            } else {
                cur[jj - 1]
            };
            let up: usize = prev[jj];
            let diag: usize = if jj == 0 {
                ii
            } else {
                prev[jj - 1]
            };
            let cost: usize = if a_chars[ii] == b_chars[jj] {
                0
            } else {
                1
            };
            let del = up.saturating_add(1);
            let ins = left.saturating_add(1);
            let sub = diag.saturating_add(cost);
            let m1 = if del <= ins {
                del
            } else {
                ins
            };
            let val = if m1 <= sub {
                m1
            } else {
                sub
            };
            proof {
                assert(left == edit_distance(x, y.drop_last()));
                assert(up == edit_distance(x.drop_last(), y));
                assert(diag == edit_distance(x.drop_last(), y.drop_last()));
                assert(val == edit_distance(x, y));
            }
            cur.push(val);
        }
        prev = cur;
    }
    proof {
        assert(sa.take(a_len as int) =~= sa);
        assert(sb.take(b_len as int) =~= sb);
    }
    prev[b_len - 1]
}

/// Symbol visibility
#[derive(Debug, Clone, PartialEq)]
pub enum SymbolVisibility {
    Public,
    PublicCrate,
    PublicSuper,
    PublicIn(String),
    Private,
    Unknown,
}

/// Resolved symbol kind
#[derive(Debug, Clone, Copy, PartialEq, Eq, Structural)]
pub enum ResolvedSymbolKind {
    Function,
    Method,
    AssociatedFunction,
    Struct,
    Enum,
    Union,
    Trait,
    TypeAlias,
    Constant,
    Static,
    Module,
    Field,
    EnumVariant,
    TraitAssociatedType,
    GenericParameter,
    Macro,
    Unknown,
}

/// Resolution method used
#[derive(Debug, Clone, Copy, PartialEq, Eq, Structural)]
pub enum ResolutionMethod {
    /// Resolved using LSP semantic information
    LspSemantic,
    /// Resolved using tree-sitter syntax
    TreeSitterSyntax,
    /// Resolved using cached information
    Cached,
    /// Resolved using pattern matching
    PatternMatching,
    /// Failed to resolve
    Failed,
}

/// The symbol kinds of the Language Server Protocol.
#[derive(Debug, Clone, Copy, PartialEq, Eq, Structural)]
pub enum LspSymbolKind {
    File,
    Module,
    Namespace,
    Package,
    Class,
    Method,
    Property,
    Field,
    Constructor,
    Enum,
    Interface,
    Function,
    Variable,
    Constant,
    String,
    Number,
    Boolean,
    Array,
    Object,
    Key,
    Null,
    EnumMember,
    Struct,
    Event,
    Operator,
    TypeParameter,
}

/// The symbol kind that an LSP symbol kind stands for.
pub open spec fn spec_symbol_kind(kind: LspSymbolKind) -> ResolvedSymbolKind {
    match kind {
        LspSymbolKind::Function => ResolvedSymbolKind::Function,
        LspSymbolKind::Method => ResolvedSymbolKind::Method,
        LspSymbolKind::Struct => ResolvedSymbolKind::Struct,
        LspSymbolKind::Enum => ResolvedSymbolKind::Enum,
        LspSymbolKind::Interface => ResolvedSymbolKind::Trait,
        LspSymbolKind::Field => ResolvedSymbolKind::Field,
        LspSymbolKind::EnumMember => ResolvedSymbolKind::EnumVariant,
        LspSymbolKind::Constant => ResolvedSymbolKind::Constant,
        LspSymbolKind::Variable => ResolvedSymbolKind::Static,
        LspSymbolKind::Module => ResolvedSymbolKind::Module,
        LspSymbolKind::TypeParameter => ResolvedSymbolKind::GenericParameter,
        _ => ResolvedSymbolKind::Unknown,
    }
}

/// Convert LSP symbol kind to our resolved symbol kind
pub fn convert_lsp_symbol_kind(kind: &LspSymbolKind) -> (r: ResolvedSymbolKind)
    ensures
        r == spec_symbol_kind(*kind),
{
    match kind {
        LspSymbolKind::Function => ResolvedSymbolKind::Function,
        LspSymbolKind::Method => ResolvedSymbolKind::Method,
        LspSymbolKind::Struct => ResolvedSymbolKind::Struct,
        LspSymbolKind::Enum => ResolvedSymbolKind::Enum,
        LspSymbolKind::Interface => ResolvedSymbolKind::Trait,
        LspSymbolKind::Field => ResolvedSymbolKind::Field,
        LspSymbolKind::EnumMember => ResolvedSymbolKind::EnumVariant,
        LspSymbolKind::Constant => ResolvedSymbolKind::Constant,
        LspSymbolKind::Variable => ResolvedSymbolKind::Static,
        LspSymbolKind::Module => ResolvedSymbolKind::Module,
        LspSymbolKind::TypeParameter => ResolvedSymbolKind::GenericParameter,
        _ => ResolvedSymbolKind::Unknown,
    }
}

/// The visibility that a declared visibility string denotes: `pub`,
/// `pub(crate)`, `pub(super)`, any other `pub(...)` with its inner path, and
/// `private` or the empty string for private items.
pub open spec fn is_visibility_of(v: SymbolVisibility, s: Seq<char>) -> bool {
    if s == "pub"@ {
        v == SymbolVisibility::Public
    } else if s == "pub(crate)"@ {
        v == SymbolVisibility::PublicCrate
    } else if s == "pub(super)"@ {
        v == SymbolVisibility::PublicSuper
    } else if starts_with(s, "pub("@) {
        v matches SymbolVisibility::PublicIn(path) && path@ == strip_all_suffix(
            strip_all_prefix(s, "pub("@),
            ")"@,
        )
    } else if s == "private"@ || s.len() == 0 {
        v == SymbolVisibility::Private
    } else {
        v == SymbolVisibility::Unknown
    }
}

/// Parse visibility from string representation
pub fn parse_visibility(visibility_str: &str) -> (v: SymbolVisibility)
    ensures
        is_visibility_of(v, visibility_str@),
{
    if str_eq(visibility_str, "pub") {
        SymbolVisibility::Public
    } else if str_eq(visibility_str, "pub(crate)") {
        SymbolVisibility::PublicCrate
    } else if str_eq(visibility_str, "pub(super)") {
        SymbolVisibility::PublicSuper
    } else if str_starts_with(visibility_str, "pub(") {
        let s = chars_of(visibility_str);
        let open_paren = chars_of("pub(");
        let close_paren = chars_of(")");
        let inner = strip_all_prefix_exec(s.as_slice(), open_paren.as_slice());
        let path = strip_all_suffix_exec(inner.as_slice(), close_paren.as_slice());
        SymbolVisibility::PublicIn(string_from(path.as_slice()))
    } else if str_eq(visibility_str, "private") || visibility_str.is_empty() {
        SymbolVisibility::Private
    } else {
        SymbolVisibility::Unknown
    }
}

/// Generate cache key for resolution: `target|caller`
pub fn generate_cache_key(target: &str, caller: &str) -> (k: String)
    ensures
        k@ == target@ + "|"@ + caller@,
{
    let k = String::from_str(target);
    let k = k.concat("|");
    k.concat(caller)
}

/// The position of a character in a document: zero-based line and character.
#[derive(Debug, Clone, Copy, PartialEq, Eq, Structural)]
pub struct SourcePosition {
    pub line: u32,
    pub character: u32,
}

/// A span of a document.
#[derive(Debug, Clone, Copy, PartialEq, Eq, Structural)]
pub struct SourceRange {
    pub start: SourcePosition,
    pub end: SourcePosition,
}

/// Resolved symbol location
#[derive(Debug, Clone)]
pub struct ResolvedLocation {
    /// File path
    pub file_path: String,
    /// Line number (1-based)
    pub line: usize,
    /// Column number (1-based)
    pub column: usize,
    /// Symbol range
    pub range: Option<SourceRange>,
}

/// Type hierarchy information
#[derive(Debug, Clone)]
pub struct TypeHierarchy {
    /// Type name
    pub type_ident: String,
    /// Parent types (traits, base classes)
    pub parents: Vec<String>,
    /// Child types that implement/extend this
    pub children: Vec<String>,
    /// Associated functions/methods
    pub methods: Vec<String>,
    /// Associated types
    pub associated_types: Vec<String>,
}

/// Context for symbol resolution
pub struct ResolutionContext<'a> {
    /// Functions by qualified name
    pub function_registry: &'a NameTable<RustFunction>,
    /// All functions in the workspace
    pub all_functions: &'a [RustFunction],
    /// All types in the workspace
    pub all_types: &'a [RustType],
    /// Current file path
    pub current_file: &'a str,
    /// Import statements for current file
    pub imports: &'a [String],
}

/// How a reference was resolved from the syntax alone: the symbol it names,
/// where that is, its kind and visibility, and the method that found it (from
/// which its confidence follows).
#[derive(Debug, Clone)]
pub struct SyntaxResolution {
    pub qualified_name: String,
    pub location: ResolvedLocation,
    pub kind: ResolvedSymbolKind,
    pub visibility: SymbolVisibility,
    pub resolution_method: ResolutionMethod,
}

/// The length in bytes of the UTF-8 text `s`, as `str::len` gives it.
pub open spec fn utf8_len(s: Seq<char>) -> int {
    (encode_utf8(s).len() as usize) as int
}

/// How far `q` is from `target`: its edit distance and the larger byte length
/// (one when both are empty). The similarity `1 - distance / length` orders the
/// candidates; comparing the fractions exactly gives that order.
pub open spec fn dissimilarity(q: Seq<char>, target: Seq<char>) -> (int, int) {
    let m = if utf8_len(q) >= utf8_len(target) {
        utf8_len(q)
    } else {
        utf8_len(target)
    };
    if m == 0 {
        (0, 1)
    } else {
        (edit_distance(q, target), m)
    }
}

/// `a` is strictly more similar to the target than `b`.
pub open spec fn more_similar(a: (int, int), b: (int, int)) -> bool {
    a.0 * b.1 < b.0 * a.1
}

/// Where a candidate goes among `sorted`: before the first that it is strictly
/// more similar than, so that equally similar candidates keep their order.
pub open spec fn insert_position(sorted: Seq<(int, int)>, x: (int, int), i: int) -> int
    decreases sorted.len() - i,
{
    if i < 0 || i >= sorted.len() {
        sorted.len() as int
    } else if more_similar(x, sorted[i]) {
        i
    } else {
        insert_position(sorted, x, i + 1)
    }
}

/// The functions named `name` among `fs`, in order.
pub open spec fn named(fs: Seq<RustFunction>, name: Seq<char>) -> Seq<RustFunction>
    decreases fs.len(),
{
    if fs.len() == 0 {
        Seq::empty()
    } else if fs.last().name@ == name {
        named(fs.drop_last(), name).push(fs.last())
    } else {
        named(fs.drop_last(), name)
    }
}

/// `fs` ordered from most to least similar qualified name, equally similar
/// ones in their original order.
pub open spec fn by_similarity(fs: Seq<RustFunction>, target: Seq<char>) -> Seq<RustFunction>
    decreases fs.len(),
{
    if fs.len() == 0 {
        Seq::empty()
    } else {
        let sorted = by_similarity(fs.drop_last(), target);
        let keys = sorted.map_values(|f: RustFunction| dissimilarity(f.qualified_name@, target));
        sorted.insert(
            insert_position(keys, dissimilarity(fs.last().qualified_name@, target), 0),
            fs.last(),
        )
    }
}

/// The last segment of a path: the text after its last `::`.
pub open spec fn simple_name(target: Seq<char>) -> Seq<char> {
    split_seq(target, "::"@).last()
}

/// The candidates for a call target: the functions whose name is the target's
/// last segment, most similar qualified name first.
pub open spec fn potential_matches(fs: Seq<RustFunction>, target: Seq<char>) -> Seq<RustFunction> {
    by_similarity(named(fs, simple_name(target)), target)
}

/// Edit distance zero only between equal sequences.
pub proof fn lemma_edit_distance_zero(a: Seq<char>, b: Seq<char>)
    ensures
        edit_distance(a, b) == 0 ==> a == b,
    decreases a.len() + b.len(),
{
    if a.len() > 0 && b.len() > 0 {
        lemma_edit_distance_bounds(a.drop_last(), b);
        lemma_edit_distance_bounds(a, b.drop_last());
        lemma_edit_distance_bounds(a.drop_last(), b.drop_last());
        lemma_edit_distance_zero(a.drop_last(), b.drop_last());
        if edit_distance(a, b) == 0 {
            assert(a.drop_last() == b.drop_last());
            assert(a =~= a.drop_last().push(a.last()));
            assert(b =~= b.drop_last().push(b.last()));
        }
    } else if a.len() == 0 && b.len() == 0 {
        assert(a =~= b);
    }
}

proof fn lemma_utf8_nonempty(s: Seq<char>)
    requires
        s.len() > 0,
    ensures
        encode_utf8(s).len() > 0,
{
}

proof fn lemma_insert_position_bounds(sorted: Seq<(int, int)>, x: (int, int), i: int)
    requires
        0 <= i <= sorted.len(),
    ensures
        i <= insert_position(sorted, x, i) <= sorted.len(),
    decreases sorted.len() - i,
{
    if i < sorted.len() && !more_similar(x, sorted[i]) {
        lemma_insert_position_bounds(sorted, x, i + 1);
    }
}

proof fn lemma_by_similarity_elements(fs: Seq<RustFunction>, target: Seq<char>)
    ensures
        by_similarity(fs, target).len() == fs.len(),
        forall|j: int|
            0 <= j < fs.len() ==> fs.contains(#[trigger] by_similarity(fs, target)[j]),
    decreases fs.len(),
{
    if fs.len() > 0 {
        let d = fs.drop_last();
        lemma_by_similarity_elements(d, target);
        let sorted = by_similarity(d, target);
        let keys = sorted.map_values(|f: RustFunction| dissimilarity(f.qualified_name@, target));
        let p = insert_position(keys, dissimilarity(fs.last().qualified_name@, target), 0);
        lemma_insert_position_bounds(keys, dissimilarity(fs.last().qualified_name@, target), 0);
        let r = sorted.insert(p, fs.last());
        assert forall|j: int| 0 <= j < fs.len() implies fs.contains(#[trigger] r[j]) by {
            if j < p {
                assert(r[j] == sorted[j]);
                let k = choose|k: int| 0 <= k < d.len() && d[k] == sorted[j];
                assert(fs[k] == d[k]);
            } else if j == p {
                assert(fs[fs.len() - 1] == r[j]);
            } else {
                assert(r[j] == sorted[j - 1]);
                let k = choose|k: int| 0 <= k < d.len() && d[k] == sorted[j - 1];
                assert(fs[k] == d[k]);
            }
        }
    }
}

proof fn lemma_key_of_exact(q: Seq<char>, target: Seq<char>)
    requires
        q == target,
    ensures
        dissimilarity(q, target).0 == 0,
        dissimilarity(q, target).1 >= 1,
{
    lemma_edit_distance_self(target);
}

proof fn lemma_key_of_other(q: Seq<char>, target: Seq<char>)
    requires
        q != target,
        encode_utf8(q).len() <= usize::MAX,
        encode_utf8(target).len() <= usize::MAX,
    ensures
        dissimilarity(q, target).0 >= 1,
        dissimilarity(q, target).1 >= 1,
{
    lemma_edit_distance_bounds(q, target);
    lemma_edit_distance_zero(q, target);
    if q.len() > 0 {
        lemma_utf8_nonempty(q);
    } else {
        assert(target.len() > 0) by {
            if target.len() == 0 {
                assert(q =~= target);
            }
        }
        lemma_utf8_nonempty(target);
    }
}

proof fn lemma_exact_first(fs: Seq<RustFunction>, target: Seq<char>)
    requires
        exists|i: int| 0 <= i < fs.len() && (#[trigger] fs[i]).qualified_name@ == target,
        forall|i: int| 0 <= i < fs.len() ==> encode_utf8((#[trigger] fs[i]).qualified_name@).len() <= usize::MAX,
        encode_utf8(target).len() <= usize::MAX,
    ensures
        by_similarity(fs, target).len() > 0,
        by_similarity(fs, target)[0].qualified_name@ == target,
    decreases fs.len(),
{
    let d = fs.drop_last();
    let x = fs.last();
    let sorted = by_similarity(d, target);
    let keys = sorted.map_values(|f: RustFunction| dissimilarity(f.qualified_name@, target));
    let k = dissimilarity(x.qualified_name@, target);
    let p = insert_position(keys, k, 0);
    lemma_by_similarity_elements(d, target);
    lemma_insert_position_bounds(keys, k, 0);
    lemma_by_similarity_elements(fs, target);
    let r = sorted.insert(p, x);
    assert(by_similarity(fs, target) == r);
    lemma_edit_distance_bounds(x.qualified_name@, target);
    if exists|i: int| 0 <= i < d.len() && (#[trigger] d[i]).qualified_name@ == target {
        assert forall|i: int| 0 <= i < d.len() implies encode_utf8(
            (#[trigger] d[i]).qualified_name@,
        ).len() <= usize::MAX by {
            assert(d[i] == fs[i]);
        }
        lemma_exact_first(d, target);
        lemma_key_of_exact(sorted[0].qualified_name@, target);
        assert(keys[0] == dissimilarity(sorted[0].qualified_name@, target));
        let k0 = keys[0];
        assert(k.0 >= 0);
        assert(!more_similar(k, k0)) by {
            assert(k.0 * k0.1 >= 0) by (nonlinear_arith)
                requires
                    k.0 >= 0,
                    k0.1 >= 1,
            ;
            assert(k0.0 * k.1 == 0) by (nonlinear_arith)
                requires
                    k0.0 == 0,
            ;
        }
        lemma_insert_position_bounds(keys, k, 1);
        assert(p == insert_position(keys, k, 1));
        assert(r[0] == sorted[0]);
    } else {
        let i = choose|i: int| 0 <= i < fs.len() && (#[trigger] fs[i]).qualified_name@ == target;
        if i < fs.len() - 1 {
            assert(d[i] == fs[i]);
            assert(false);
        }
        lemma_key_of_exact(x.qualified_name@, target);
        if sorted.len() > 0 {
            assert(fs.contains(sorted[0])) by {
                let kk = choose|kk: int| 0 <= kk < d.len() && d[kk] == sorted[0];
                assert(fs[kk] == d[kk]);
            }
            let kk = choose|kk: int| 0 <= kk < d.len() && d[kk] == sorted[0];
            assert(d[kk] == fs[kk]);
            assert(encode_utf8(fs[kk].qualified_name@).len() <= usize::MAX);
            assert(sorted[0].qualified_name@ != target);
            lemma_key_of_other(sorted[0].qualified_name@, target);
            assert(keys[0] == dissimilarity(sorted[0].qualified_name@, target));
            let k0 = keys[0];
            assert(more_similar(k, k0)) by {
                assert(k0.0 * k.1 >= 1) by (nonlinear_arith)
                    requires
                        k0.0 >= 1,
                        k.1 >= 1,
                ;
                assert(k.0 * k0.1 == 0) by (nonlinear_arith)
                    requires
                        k.0 == 0,
                ;
            }
            assert(p == 0);
        }
        assert(r[p] == x);
        assert(p == 0);
    }
}

/// Among the candidates of a target, one whose qualified name is the whole
/// target comes first: candidates are ranked by their distance to the full
/// target path, and the exact one is at distance zero while every other is
/// farther (strings held in memory, so their byte lengths fit in `usize`).
pub proof fn lemma_exact_match_ranked_first(fs: Seq<RustFunction>, target: Seq<char>)
    requires
        exists|i: int|
            0 <= i < fs.len() && (#[trigger] fs[i]).name@ == simple_name(target)
                && fs[i].qualified_name@ == target,
        forall|i: int| 0 <= i < fs.len() ==> encode_utf8((#[trigger] fs[i]).qualified_name@).len() <= usize::MAX,
        encode_utf8(target).len() <= usize::MAX,
    ensures
        potential_matches(fs, target).len() > 0,
        potential_matches(fs, target)[0].qualified_name@ == target,
{
    let n = simple_name(target);
    lemma_named_elements(fs, n);
    let i = choose|i: int|
        0 <= i < fs.len() && (#[trigger] fs[i]).name@ == n && fs[i].qualified_name@ == target;
    lemma_named_contains(fs, n, i);
    let ns = named(fs, n);
    assert forall|j: int| 0 <= j < ns.len() implies encode_utf8(
        (#[trigger] ns[j]).qualified_name@,
    ).len() <= usize::MAX by {
        let k = choose|k: int| 0 <= k < fs.len() && fs[k] == ns[j];
    }
    let j = choose|j: int| 0 <= j < ns.len() && ns[j] == fs[i];
    assert(ns[j].qualified_name@ == target);
    lemma_exact_first(ns, target);
}

proof fn lemma_named_elements(fs: Seq<RustFunction>, name: Seq<char>)
    ensures
        forall|j: int| 0 <= j < named(fs, name).len() ==> fs.contains(#[trigger] named(fs, name)[j]),
    decreases fs.len(),
{
    if fs.len() > 0 {
        lemma_named_elements(fs.drop_last(), name);
        let d = fs.drop_last();
        let r = named(fs, name);
        assert forall|j: int| 0 <= j < r.len() implies fs.contains(#[trigger] r[j]) by {
            if j < named(d, name).len() {
                assert(r[j] == named(d, name)[j]);
                let k = choose|k: int| 0 <= k < d.len() && d[k] == named(d, name)[j];
                assert(fs[k] == d[k]);
            } else {
                assert(r[j] == fs[fs.len() - 1]);
            }
        }
    }
}

proof fn lemma_named_contains(fs: Seq<RustFunction>, name: Seq<char>, i: int)
    requires
        0 <= i < fs.len(),
        fs[i].name@ == name,
    ensures
        named(fs, name).contains(fs[i]),
    decreases fs.len(),
{
    let d = fs.drop_last();
    if i < fs.len() - 1 {
        assert(d[i] == fs[i]);
        lemma_named_contains(d, name, i);
        let k = choose|k: int| 0 <= k < named(d, name).len() && named(d, name)[k] == fs[i];
        if fs.last().name@ == name {
            assert(named(fs, name)[k] == named(d, name)[k]);
        }
    } else {
        assert(named(fs, name).last() == fs[i]);
    }
}

fn last_segment(target: &str) -> (r: String)
    ensures
        r@ == simple_name(target@),
{
    let t = chars_of(target);
    let sep = chars_of("::");
    proof {
        reveal_strlit("::");
        lemma_split_nonempty(target@, "::"@);
    }
    let parts = split_chars(t.as_slice(), sep.as_slice());
    let last = &parts[parts.len() - 1];
    proof {
        assert(views(parts@).last() == last@);
    }
    string_from(last.as_slice())
}

/// The terms of the similarity of `q` to `target`: their edit distance and the
/// larger of their byte lengths (one when both are empty); the similarity is
/// `1 - distance / length`.
pub fn similarity_terms(q: &str, target: &str) -> (r: (u128, u128))
    ensures
        r.0 as int == dissimilarity(q@, target@).0,
        r.1 as int == dissimilarity(q@, target@).1,
        r.0 <= usize::MAX,
        r.1 <= usize::MAX,
{
    let lq = q.len();
    let lt = target.len();
    let m = if lq >= lt {
        lq
    } else {
        lt
    };
    if m == 0 {
        (0, 1)
    } else {
        let d = levenshtein_distance(q, target);
        (d as u128, m as u128)
    }
}

/// Find potential function matches using pattern matching
pub fn find_potential_matches<'a>(target_name: &str, context: &ResolutionContext<'a>) -> (r: Vec<
    &'a RustFunction,
>)
    ensures
        r@.map_values(|f: &RustFunction| *f) == potential_matches(
            context.all_functions@,
            target_name@,
        ),
{
    let simple = last_segment(target_name);
    let fs = context.all_functions;
    let mut sorted: Vec<&'a RustFunction> = Vec::new();
    let mut keys: Vec<(u128, u128)> = Vec::new();
    let mut i: usize = 0;
    proof {
        assert(sorted@.map_values(|f: &RustFunction| *f) =~= by_similarity(
            named(fs@.take(0), simple@),
            target_name@,
        ));
    }
    while i < fs.len()
        invariant
            i <= fs@.len(),
            fs@ == context.all_functions@,
            keys@.len() == sorted@.len(),
            forall|j: int|
                0 <= j < keys@.len() ==> (#[trigger] keys@[j]).0 as int == dissimilarity(
                    sorted@[j].qualified_name@,
                    target_name@,
                ).0 && keys@[j].1 as int == dissimilarity(
                    sorted@[j].qualified_name@,
                    target_name@,
                ).1 && keys@[j].0 <= usize::MAX && keys@[j].1 <= usize::MAX,
            sorted@.map_values(|f: &RustFunction| *f) == by_similarity(
                named(fs@.take(i as int), simple@),
                target_name@,
            ),
        decreases fs@.len() - i,
    {
        let f = &fs[i];
        proof {
            assert(fs@.take(i + 1).drop_last() =~= fs@.take(i as int));
            assert(fs@.take(i + 1).last() == fs@[i as int]);
        }
        if str_eq(f.name.as_str(), simple.as_str()) {
            let k = similarity_terms(f.qualified_name.as_str(), target_name);
            let ghost sv = sorted@.map_values(|g: &RustFunction| *g);
            let ghost sk = sv.map_values(
                |g: RustFunction| dissimilarity(g.qualified_name@, target_name@),
            );
            let ghost kf = dissimilarity(f.qualified_name@, target_name@);
            assert(sk.len() == keys@.len());
            assert(insert_position(sk, kf, 0) == insert_position(sk, kf, 0));
            let mut pos: usize = 0;
            let mut found = false;
            while !found && pos < keys.len()
                invariant
                    pos <= keys@.len(),
                    keys@.len() == sk.len(),
                    k.0 <= usize::MAX,
                    k.1 <= usize::MAX,
                    k.0 as int == kf.0,
                    k.1 as int == kf.1,
                    forall|j: int|
                        0 <= j < keys@.len() ==> (#[trigger] keys@[j]).0 as int == sk[j].0
                            && keys@[j].1 as int == sk[j].1 && keys@[j].0 <= usize::MAX
                            && keys@[j].1 <= usize::MAX,
                    insert_position(sk, kf, 0) == insert_position(sk, kf, pos as int),
                    found ==> pos < keys@.len() && more_similar(kf, sk[pos as int]),
                decreases keys@.len() - pos + if found {
                    0int
                } else {
                    1int
                },
            {
                let (d, m) = keys[pos];
                proof {
                    assert(k.0 * m <= 0xffff_ffff_ffff_ffffu128 * 0xffff_ffff_ffff_ffffu128)
                        by (nonlinear_arith)
                        requires
                            k.0 <= 0xffff_ffff_ffff_ffffu128,
                            m <= 0xffff_ffff_ffff_ffffu128,
                    ;
                    assert(d * k.1 <= 0xffff_ffff_ffff_ffffu128 * 0xffff_ffff_ffff_ffffu128)
                        by (nonlinear_arith)
                        requires
                            d <= 0xffff_ffff_ffff_ffffu128,
                            k.1 <= 0xffff_ffff_ffff_ffffu128,
                    ;
                }
                let lhs = k.0 * m;
                let rhs = d * k.1;
                proof {
                    assert(kf.0 * sk[pos as int].1 == lhs) by (nonlinear_arith)
                        requires
                            kf.0 == k.0,
                            sk[pos as int].1 == m,
                            lhs == k.0 * m,
                    ;
                    assert(sk[pos as int].0 * kf.1 == rhs) by (nonlinear_arith)
                        requires
                            kf.1 == k.1,
                            sk[pos as int].0 == d,
                            rhs == d * k.1,
                    ;
                }
                if lhs < rhs {
                    found = true;
                } else {
                    pos = pos + 1;
                }
            }
            proof {
                assert(insert_position(sk, kf, 0) == pos);
            }
            let ghost old_sorted = sorted@;
            let ghost old_keys = keys@;
            sorted.insert(pos, f);
            keys.insert(pos, k);
            proof {
                assert(sorted@.map_values(|g: &RustFunction| *g) =~= sv.insert(pos as int, *f));
                assert forall|j: int| 0 <= j < keys@.len() implies (#[trigger] keys@[j]).0 as int
                    == dissimilarity(sorted@[j].qualified_name@, target_name@).0 && keys@[j].1 as int
                    == dissimilarity(sorted@[j].qualified_name@, target_name@).1 && keys@[j].0
                    <= usize::MAX && keys@[j].1 <= usize::MAX by {
                    if j < pos {
                        assert(keys@[j] == old_keys[j]);
                        assert(sorted@[j] == old_sorted[j]);
                    } else if j > pos {
                        assert(keys@[j] == old_keys[j - 1]);
                        assert(sorted@[j] == old_sorted[j - 1]);
                    }
                }
                assert(named(fs@.take(i + 1), simple@) == named(fs@.take(i as int), simple@).push(
                    *f,
                ));
                assert(named(fs@.take(i + 1), simple@).drop_last() == named(
                    fs@.take(i as int),
                    simple@,
                ));
            }
        }
        i = i + 1;
    }
    assert(fs@.take(fs@.len() as int) =~= fs@);
    sorted
}

/// The kind of symbol a call of this type reaches.
pub open spec fn kind_for_call(t: CallType) -> ResolvedSymbolKind {
    match t {
        CallType::Method => ResolvedSymbolKind::Method,
        CallType::Macro => ResolvedSymbolKind::Macro,
        _ => ResolvedSymbolKind::Function,
    }
}

/// The location of a function's first line, without column or range.
pub open spec fn at_function(l: ResolvedLocation, f: RustFunction) -> bool {
    l.file_path@ == f.file_path@ && l.line == f.line_start && l.column == 0 && l.range is None
}

/// `out` is the syntax-based resolution of `r`: the function registered under
/// the target's name; else the most similar function of the same simple name;
/// else the reference itself, unresolved.
pub open spec fn syntax_resolution(
    r: FunctionReference,
    registry: Map<Seq<char>, RustFunction>,
    all: Seq<RustFunction>,
    out: SyntaxResolution,
) -> bool {
    if registry.contains_key(r.target_function@) {
        let f = registry[r.target_function@];
        &&& out.qualified_name@ == f.qualified_name@
        &&& at_function(out.location, f)
        &&& out.kind == kind_for_call(r.call_type)
        &&& is_visibility_of(out.visibility, f.visibility@)
        &&& out.resolution_method == ResolutionMethod::TreeSitterSyntax
    } else if potential_matches(all, r.target_function@).len() > 0 {
        let b = potential_matches(all, r.target_function@)[0];
        &&& out.qualified_name@ == b.qualified_name@
        &&& at_function(out.location, b)
        &&& out.kind == ResolvedSymbolKind::Function
        &&& is_visibility_of(out.visibility, b.visibility@)
        &&& out.resolution_method == ResolutionMethod::PatternMatching
    } else {
        &&& out.qualified_name@ == r.target_function@
        &&& out.location.file_path@ == r.file_path@
        &&& out.location.line == r.line
        &&& out.location.column == 0
        &&& out.location.range is None
        &&& out.kind == ResolvedSymbolKind::Unknown
        &&& out.visibility == SymbolVisibility::Unknown
        &&& out.resolution_method == ResolutionMethod::Failed
    }
}

/// Resolve a function reference from the syntax alone: an exact entry of the
/// registry, else the best pattern match, else nothing.
pub fn resolve_with_tree_sitter(function_ref: &FunctionReference, context: &ResolutionContext) -> (out: SyntaxResolution)
    ensures
        syntax_resolution(
            *function_ref,
            context.function_registry@,
            context.all_functions@,
            out,
        ),
{
    let target_name = function_ref.target_function.as_str();
    match context.function_registry.get(target_name) {
        Some(function) => {
            let kind = match function_ref.call_type {
                CallType::Method => ResolvedSymbolKind::Method,
                CallType::Macro => ResolvedSymbolKind::Macro,
                _ => ResolvedSymbolKind::Function,
            };
            return SyntaxResolution {
                qualified_name: function.qualified_name.clone(),
                location: ResolvedLocation {
                    file_path: function.file_path.clone(),
                    line: function.line_start,
                    column: 0,
                    range: None,
                },
                kind,
                visibility: parse_visibility(function.visibility.as_str()),
                resolution_method: ResolutionMethod::TreeSitterSyntax,
            };
        },
        None => {},
    }
    let potential = find_potential_matches(target_name, context);
    if potential.len() > 0 {
        let best = potential[0];
        proof {
            assert(potential@.map_values(|f: &RustFunction| *f)[0] == *best);
        }
        SyntaxResolution {
            qualified_name: best.qualified_name.clone(),
            location: ResolvedLocation {
                file_path: best.file_path.clone(),
                line: best.line_start,
                column: 0,
                range: None,
            },
            kind: ResolvedSymbolKind::Function,
            visibility: parse_visibility(best.visibility.as_str()),
            resolution_method: ResolutionMethod::PatternMatching,
        }
    } else {
        SyntaxResolution {
            qualified_name: function_ref.target_function.clone(),
            location: ResolvedLocation {
                file_path: function_ref.file_path.clone(),
                line: function_ref.line,
                column: 0,
                range: None,
            },
            kind: ResolvedSymbolKind::Unknown,
            visibility: SymbolVisibility::Unknown,
            resolution_method: ResolutionMethod::Failed,
        }
    }
}

/// The type hierarchy entries of `types`, keyed by qualified name (a later
/// type of the same name replaces an earlier one); parents, children, methods
/// and associated types start empty.
pub fn build_type_hierarchy(types: &[RustType]) -> (h: NameTable<TypeHierarchy>)
    ensures
        forall|q: Seq<char>| #[trigger]
            h@.contains_key(q) <==> exists|i: int|
                0 <= i < types@.len() && #[trigger] types@[i].qualified_name@ == q,
        forall|q: Seq<char>| #[trigger]
            h@.contains_key(q) ==> h@[q].type_ident@ == q && h@[q].parents@.len() == 0
                && h@[q].children@.len() == 0 && h@[q].methods@.len() == 0
                && h@[q].associated_types@.len() == 0,
{
    let mut h: NameTable<TypeHierarchy> = NameTable::new();
    let mut i: usize = 0;
    while i < types.len()
        invariant
            i <= types@.len(),
            forall|q: Seq<char>| #[trigger]
                h@.contains_key(q) <==> exists|j: int|
                    0 <= j < i && #[trigger] types@[j].qualified_name@ == q,
            forall|q: Seq<char>| #[trigger]
                h@.contains_key(q) ==> h@[q].type_ident@ == q && h@[q].parents@.len() == 0
                    && h@[q].children@.len() == 0 && h@[q].methods@.len() == 0
                    && h@[q].associated_types@.len() == 0,
        decreases types@.len() - i,
    {
        let t = &types[i];
        let entry = TypeHierarchy {
            type_ident: t.qualified_name.clone(),
            parents: Vec::new(),
            children: Vec::new(),
            methods: Vec::new(),
            associated_types: Vec::new(),
        };
        h.insert(t.qualified_name.clone(), entry);
        proof {
            assert forall|q: Seq<char>| #[trigger] h@.contains_key(q) implies exists|j: int|
                0 <= j < i + 1 && #[trigger] types@[j].qualified_name@ == q by {
                if q == t.qualified_name@ {
                    assert(types@[i as int].qualified_name@ == q);
                }
            }
        }
        i = i + 1;
    }
    h
}

// ---------------------------------------------------------------------------
// Resolution through the language server
// ---------------------------------------------------------------------------

/// The zero-based line the language server is asked about for a reference
/// at one-based `line` (the line is taken as a 32-bit number first).
pub open spec fn lsp_request_line(line: usize) -> u32 {
    let l = line as u32;
    if l == 0 {
        0
    } else {
        (l - 1) as u32
    }
}

/// The line to ask the language server for the definition of a reference.
pub fn lsp_definition_request_line(function_ref: &FunctionReference) -> (l: u32)
    ensures
        l == lsp_request_line(function_ref.line),
{
    #[verifier::truncate]
    let line: u32 = function_ref.line as u32;
    line.saturating_sub(1)
}

/// A definition the language server reported: the document and the span.
#[derive(Debug, Clone)]
pub struct LspDefinition {
    pub uri: String,
    pub range: SourceRange,
}

/// A symbol of a document, as the language server describes it.
#[derive(Debug, Clone)]
pub struct LspDocumentSymbol {
    pub kind: LspSymbolKind,
    pub detail: Option<String>,
    pub documentation: Option<String>,
    pub deprecated: bool,
    pub range: SourceRange,
}

/// What the language server resolved a reference to (its confidence is kept
/// by the application).
#[derive(Debug, Clone)]
pub struct LspResolution {
    pub qualified_name: String,
    pub location: ResolvedLocation,
    pub kind: ResolvedSymbolKind,
    pub documentation: Option<String>,
    pub visibility: SymbolVisibility,
    pub deprecated: bool,
    pub resolution_method: ResolutionMethod,
}

/// The symbol's lines hold the definition's lines.
pub open spec fn symbol_holds(s: LspDocumentSymbol, d: LspDefinition) -> bool {
    s.range.start.line <= d.range.start.line && s.range.end.line >= d.range.end.line
}

/// Index of the first symbol at or after `i` that holds the definition, or -1.
pub open spec fn first_holding_symbol(ss: Seq<LspDocumentSymbol>, d: LspDefinition, i: int) -> int
    decreases ss.len() - i,
{
    if i < 0 || i >= ss.len() {
        -1
    } else if symbol_holds(ss[i], d) {
        i
    } else {
        first_holding_symbol(ss, d, i + 1)
    }
}

pub proof fn lemma_first_holding_symbol(ss: Seq<LspDocumentSymbol>, d: LspDefinition, i: int)
    requires
        0 <= i,
    ensures
        first_holding_symbol(ss, d, i) == -1 || (i <= first_holding_symbol(ss, d, i) < ss.len()
            && symbol_holds(ss[first_holding_symbol(ss, d, i)], d)),
        forall|j: int|
            i <= j < ss.len() && (first_holding_symbol(ss, d, i) == -1 || j
                < first_holding_symbol(ss, d, i)) ==> !symbol_holds(#[trigger] ss[j], d),
    decreases ss.len() - i,
{
    if i < ss.len() && !symbol_holds(ss[i], d) {
        lemma_first_holding_symbol(ss, d, i + 1);
    }
}

pub open spec fn opt_text(o: Option<String>) -> Option<Seq<char>> {
    match o {
        Some(s) => Some(s@),
        None => None,
    }
}

/// The resolution of a reference from the server's answers: none without a
/// definition; otherwise the first definition's location (the document path
/// without its `file://` prefixes, one-based line and column), and the kind,
/// visibility, documentation and deprecation of the first document symbol
/// that holds it (a function of unknown visibility when none does).
pub open spec fn lsp_resolution_of(
    r: FunctionReference,
    defs: Seq<LspDefinition>,
    ss: Seq<LspDocumentSymbol>,
    out: Option<LspResolution>,
) -> bool {
    if defs.len() == 0 {
        out is None
    } else {
        let d = defs[0];
        let k = first_holding_symbol(ss, d, 0);
        &&& out is Some
        &&& out->0.qualified_name@ == r.target_function@
        &&& out->0.location.file_path@ == strip_all_prefix(d.uri@, "file://"@)
        &&& out->0.location.line == d.range.start.line + 1
        &&& out->0.location.column == d.range.start.character + 1
        &&& out->0.location.range == Some(d.range)
        &&& out->0.resolution_method == ResolutionMethod::LspSemantic
        &&& if k >= 0 {
            &&& out->0.kind == spec_symbol_kind(ss[k].kind)
            &&& is_visibility_of(
                out->0.visibility,
                match ss[k].detail {
                    Some(t) => t@,
                    None => ""@,
                },
            )
            &&& opt_text(out->0.documentation) == opt_text(ss[k].documentation)
            &&& out->0.deprecated == ss[k].deprecated
        } else {
            &&& out->0.kind == ResolvedSymbolKind::Function
            &&& out->0.visibility == SymbolVisibility::Unknown
            &&& out->0.documentation is None
            &&& !out->0.deprecated
        }
    }
}

fn first_holding(ss: &Vec<LspDocumentSymbol>, d: &LspDefinition) -> (r: Option<usize>)
    ensures
        match r {
            Some(k) => k as int == first_holding_symbol(ss@, *d, 0),
            None => first_holding_symbol(ss@, *d, 0) == -1,
        },
{
    let mut i: usize = 0;
    while i < ss.len()
        invariant
            i <= ss@.len(),
            forall|j: int| 0 <= j < i ==> !symbol_holds(#[trigger] ss@[j], *d),
        decreases ss@.len() - i,
    {
        proof {
            lemma_first_holding_symbol(ss@, *d, 0);
        }
        let s = &ss[i];
        if s.range.start.line <= d.range.start.line && s.range.end.line >= d.range.end.line {
            return Some(i);
        }
        i = i + 1;
    }
    proof {
        lemma_first_holding_symbol(ss@, *d, 0);
    }
    None
}

/// Resolves a reference from what the language server answered: its
/// definitions of the reference, and the symbols of the first definition's
/// document (see `lsp_resolution_of`).
pub fn resolve_with_lsp(
    function_ref: &FunctionReference,
    definitions: &Vec<LspDefinition>,
    symbols: &Vec<LspDocumentSymbol>,
) -> (out: Option<LspResolution>)
    requires
        definitions@.len() > 0 ==> definitions@[0].range.start.line + 1 <= usize::MAX
            && definitions@[0].range.start.character + 1 <= usize::MAX,
    ensures
        lsp_resolution_of(*function_ref, definitions@, symbols@, out),
{
    if definitions.len() == 0 {
        return None;
    }
    let d = &definitions[0];
    let uri = chars_of(d.uri.as_str());
    let scheme = chars_of("file://");
    let path = strip_all_prefix_exec(uri.as_slice(), scheme.as_slice());
    let location = ResolvedLocation {
        file_path: string_from(path.as_slice()),
        line: d.range.start.line as usize + 1,
        column: d.range.start.character as usize + 1,
        range: Some(d.range),
    };
    proof {
        lemma_first_holding_symbol(symbols@, *d, 0);
    }
    let (kind, visibility, documentation, deprecated) = match first_holding(symbols, d) {
        Some(k) => {
            let s = &symbols[k];
            let detail = match &s.detail {
                Some(t) => t.as_str(),
                None => "",
            };
            let documentation = match &s.documentation {
                Some(t) => Some(t.clone()),
                None => None,
            };
            (convert_lsp_symbol_kind(&s.kind), parse_visibility(detail), documentation, s.deprecated)
        },
        None => (ResolvedSymbolKind::Function, SymbolVisibility::Unknown, None, false),
    };
    Some(
        LspResolution {
            qualified_name: function_ref.target_function.clone(),
            location,
            kind,
            documentation,
            visibility,
            deprecated,
            resolution_method: ResolutionMethod::LspSemantic,
        },
    )
}

} // verus!
