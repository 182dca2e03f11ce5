//! A Rust syntax tree as the analysis reads it: each node's kind, the field
//! under which it sits in its parent, the source text it spans, its rows and
//! its children in source order (anonymous tokens included).
use vstd::prelude::*;

use crate::text::str_eq;

verus! {

/// One node of a parsed Rust source file.
#[derive(Debug)]
pub struct SyntaxNode {
    /// Grammar kind, such as `function_item` or `identifier`.
    pub kind: String,
    /// Field name under which the node sits in its parent (`name`, `body`, ...).
    pub field: Option<String>,
    /// The source text that the node spans.
    pub text: String,
    /// Zero-based row of the node's first character.
    pub start_row: usize,
    /// Zero-based row of the node's last character.
    pub end_row: usize,
    pub children: Vec<SyntaxNode>,
}

/// The node sits under field `f` of its parent.
pub open spec fn has_field(n: SyntaxNode, f: Seq<char>) -> bool {
    match n.field {
        Some(name) => name@ == f,
        None => false,
    }
}

/// Index of the first node of `ns` at or after `i` that sits under field `f`, or -1.
pub open spec fn field_index_from(ns: Seq<SyntaxNode>, f: Seq<char>, i: int) -> int
    decreases ns.len() - i,
{
    if i < 0 || i >= ns.len() {
        -1
    } else if has_field(ns[i], f) {
        i
    } else {
        field_index_from(ns, f, i + 1)
    }
}

/// Index of the first child of `n` under field `f`, or -1
/// (tree-sitter's `child_by_field_name`).
pub open spec fn field_index(n: SyntaxNode, f: Seq<char>) -> int {
    field_index_from(n.children@, f, 0)
}

/// Text of the first child of `n` under field `f`.
pub open spec fn field_text(n: SyntaxNode, f: Seq<char>) -> Option<Seq<char>> {
    let i = field_index(n, f);
    if i >= 0 {
        Some(n.children@[i].text@)
    } else {
        None
    }
}

pub proof fn lemma_field_index_from(ns: Seq<SyntaxNode>, f: Seq<char>, i: int)
    requires
        0 <= i,
    ensures
        field_index_from(ns, f, i) == -1 || (i <= field_index_from(ns, f, i) < ns.len()),
        field_index_from(ns, f, i) >= 0 ==> has_field(ns[field_index_from(ns, f, i)], f),
    decreases ns.len() - i,
{
    if i < ns.len() && !has_field(ns[i], f) {
        lemma_field_index_from(ns, f, i + 1);
    }
}

fn has_field_exec(n: &SyntaxNode, f: &str) -> (b: bool)
    ensures
        b == has_field(*n, f@),
{
    match &n.field {
        Some(name) => str_eq(name.as_str(), f),
        None => false,
    }
}

/// The first child of `n` under field `f`.
pub fn field_child<'a>(n: &'a SyntaxNode, f: &str) -> (r: Option<&'a SyntaxNode>)
    ensures
        match r {
            Some(c) => field_index(*n, f@) >= 0 && *c == n.children@[field_index(*n, f@)],
            None => field_index(*n, f@) == -1,
        },
{
    let mut i: usize = 0;
    while i < n.children.len()
        invariant
            i <= n.children@.len(),
            field_index_from(n.children@, f@, i as int) == field_index(*n, f@),
        decreases n.children@.len() - i,
    {
        if has_field_exec(&n.children[i], f) {
            return Some(&n.children[i]);
        }
        i = i + 1;
    }
    None
}

/// Text of the first child of `n` under field `f`.
pub fn field_text_exec(n: &SyntaxNode, f: &str) -> (r: Option<String>)
    ensures
        match r {
            Some(t) => field_text(*n, f@) == Some(t@),
            None => field_text(*n, f@) is None,
        },
{
    match field_child(n, f) {
        Some(c) => Some(c.text.clone()),
        None => None,
    }
}

/// The node is of kind `k`.
pub fn is_kind(n: &SyntaxNode, k: &str) -> (b: bool)
    ensures
        b == (n.kind@ == k@),
{
    str_eq(n.kind.as_str(), k)
}

/// Every node of the tree has rows below `usize::MAX`, so that its one-based
/// line numbers can be written down.
pub open spec fn rows_fit(n: SyntaxNode) -> bool
    decreases n,
{
    &&& n.start_row < usize::MAX
    &&& n.end_row < usize::MAX
    &&& rows_fit_list(n.children@)
}

/// Every tree of `ns` has rows below `usize::MAX`.
pub open spec fn rows_fit_list(ns: Seq<SyntaxNode>) -> bool
    decreases ns,
{
    ns.len() == 0 || (rows_fit_list(ns.drop_last()) && rows_fit(ns.last()))
}

pub proof fn lemma_rows_fit_list(ns: Seq<SyntaxNode>)
    requires
        rows_fit_list(ns),
    ensures
        forall|i: int| 0 <= i < ns.len() ==> #[trigger] rows_fit(ns[i]),
    decreases ns.len(),
{
    if ns.len() > 0 {
        lemma_rows_fit_list(ns.drop_last());
        assert forall|i: int| 0 <= i < ns.len() implies #[trigger] rows_fit(ns[i]) by {
            if i < ns.len() - 1 {
                assert(ns.drop_last()[i] == ns[i]);
            }
        }
    }
}

/// Index of the first node of `ns` at or after `i` of kind `k`, or -1.
pub open spec fn kind_index_from(ns: Seq<SyntaxNode>, k: Seq<char>, i: int) -> int
    decreases ns.len() - i,
{
    if i < 0 || i >= ns.len() {
        -1
    } else if ns[i].kind@ == k {
        i
    } else {
        kind_index_from(ns, k, i + 1)
    }
}

/// Text of the first child of kind `k`.
pub open spec fn kind_text(n: SyntaxNode, k: Seq<char>) -> Option<Seq<char>> {
    let i = kind_index_from(n.children@, k, 0);
    if i >= 0 {
        Some(n.children@[i].text@)
    } else {
        None
    }
}

/// Text of the first child of `n` of kind `k`.
pub fn kind_text_exec(n: &SyntaxNode, k: &str) -> (r: Option<String>)
    ensures
        match r {
            Some(t) => kind_text(*n, k@) == Some(t@),
            None => kind_text(*n, k@) is None,
        },
{
    let mut i: usize = 0;
    while i < n.children.len()
        invariant
            i <= n.children@.len(),
            kind_index_from(n.children@, k@, i as int) == kind_index_from(n.children@, k@, 0),
        decreases n.children@.len() - i,
    {
        if is_kind(&n.children[i], k) {
            return Some(n.children[i].text.clone());
        }
        i = i + 1;
    }
    None
}

/// Whether every row of the tree is below `usize::MAX`.
pub fn rows_fit_exec(n: &SyntaxNode) -> (b: bool)
    ensures
        b == rows_fit(*n),
    decreases n, 1nat,
{
    n.start_row < usize::MAX && n.end_row < usize::MAX && rows_fit_list_exec(&n.children)
}

fn rows_fit_list_exec(ns: &Vec<SyntaxNode>) -> (b: bool)
    ensures
        b == rows_fit_list(ns@),
    decreases ns@, 0nat,
{
    let mut i: usize = 0;
    assert(ns@.take(0) =~= Seq::<SyntaxNode>::empty());
    while i < ns.len()
        invariant
            i <= ns@.len(),
            rows_fit_list(ns@.take(i as int)),
        decreases ns@.len() - i,
    {
        if !rows_fit_exec(&ns[i]) {
            proof {
                if rows_fit_list(ns@) {
                    lemma_rows_fit_list(ns@);
                }
            }
            return false;
        }
        proof {
            let t = ns@.take(i + 1);
            assert(t.drop_last() =~= ns@.take(i as int));
            assert(t.last() == ns@[i as int]);
        }
        i = i + 1;
    }
    assert(ns@.take(ns@.len() as int) =~= ns@);
    true
}

/// The syntax tree that tree-sitter's Rust grammar gives for a source text,
/// node for node as `SyntaxNode`s, or `None` where the parser gives no tree.
pub uninterp spec fn rust_syntax(source: Seq<char>) -> Option<SyntaxNode>;

#[verifier::external_type_specification]
#[verifier::external_body]
pub struct ExTreeCursor<'tree>(tree_sitter::TreeCursor<'tree>);

/// Parses `source` with tree-sitter's Rust grammar (`Parser::set_language`,
/// then `Parser::parse` on a fresh parser that has neither a timeout nor a
/// cancellation flag) and converts the tree. Trusted: the result is claimed to
/// be `rust_syntax` of the text, which holds because such a parse depends on
/// the text alone; nothing is claimed of the tree's shape.
#[verifier::external_body]
pub(crate) fn parse_rust_source(source: &str) -> (t: Option<SyntaxNode>)
    ensures
        t == rust_syntax(source@),
{
    let mut parser = tree_sitter::Parser::new();
    let language: tree_sitter::Language = tree_sitter_rust::LANGUAGE.into();
    if parser.set_language(&language).is_err() {
        return None;
    }
    let tree = parser.parse(source, None)?;
    let mut cursor = tree.walk();
    Some(syntax_node_at(&mut cursor, source.as_bytes()))
}

/// Converts the node under `cursor` and its subtree into a `SyntaxNode`
/// through tree-sitter's `TreeCursor` and `Node` accessors: kind, field name,
/// spanned text (empty where it is not UTF-8), rows and children in order.
/// Trusted, with nothing claimed of the result.
#[verifier::external_body]
fn syntax_node_at(cursor: &mut tree_sitter::TreeCursor, source: &[u8]) -> SyntaxNode {
    let node = cursor.node();
    let field = cursor.field_name().map(|f| f.to_string());
    let mut children = Vec::new();
    if cursor.goto_first_child() {
        children.push(syntax_node_at(cursor, source));
        while cursor.goto_next_sibling() {
            children.push(syntax_node_at(cursor, source));
        }
        cursor.goto_parent();
    }
    let text = node.utf8_text(source).unwrap_or("").to_string();
    let (start_row, end_row) = (node.start_position().row, node.end_position().row);
    SyntaxNode { kind: node.kind().to_string(), field, text, start_row, end_row, children }
}

} // verus!
