//! Symbols, imports, dependencies and call references read off the syntax tree
//! of one source file.
use vstd::prelude::*;

use crate::syntax::SyntaxNode;
use crate::syntax::field_text;
use crate::syntax::field_text_exec;
use crate::syntax::is_kind;
use crate::syntax::kind_text;
use crate::syntax::kind_text_exec;
use crate::syntax::lemma_rows_fit_list;
use crate::syntax::rows_fit;
use crate::text::split_chars;
use crate::text::split_seq;
use crate::text::strip_all_prefix;
use crate::text::strip_all_prefix_exec;
use crate::text::strip_all_suffix;
use crate::text::strip_all_suffix_exec;
use crate::text::views;
use crate::workspace::FunctionModel;
use crate::workspace::RustFunction;
use crate::workspace::CallType;
use crate::workspace::Dependency;
use crate::workspace::DependencyModel;
use crate::workspace::FunctionReference;
use crate::workspace::ReferenceModel;
use crate::workspace::cross_crate_call;
use crate::workspace::is_cross_crate_call;
use crate::paths::file_module;
use crate::paths::get_file_module;
use crate::syntax::field_child;
use crate::text::contains_seq;
use crate::text::is_whitespace;
use crate::text::is_whitespace_exec;
use crate::text::lemma_rfind;
use crate::text::rfind;
use crate::text::rfind_exec;
use crate::text::str_contains;
use crate::text::str_ends_with;
use crate::workspace::RustType;
use crate::workspace::TypeModel;
use crate::workspace::qualified_name;
use crate::workspace::qualify;
use crate::text::chars_of;
use crate::text::ends_with;
use crate::text::ends_with_chars;
use crate::text::remove_chars;
use crate::text::remove_chars_exec;
use crate::text::starts_with;
use crate::text::starts_with_chars;
use crate::text::string_from;
use crate::text::subvec;
use crate::text::trim;
use crate::text::trim_exec;
use crate::workspace::views_of;

verus! {

/// The path that a `use` declaration imports: the text between a leading
/// `use ` and a trailing `;`, trimmed, without braces and stars.
pub open spec fn import_path(t: Seq<char>) -> Option<Seq<char>> {
    let rest = t.skip("use "@.len() as int);
    if starts_with(t, "use "@) && ends_with(rest, ";"@) {
        Some(remove_chars(trim(rest.take(rest.len() - ";"@.len())), "{}*"@))
    } else {
        None
    }
}

/// Extracts the imported path from `use path::to::item;`.
pub fn parse_import_path(use_text: &str) -> (r: Option<String>)
    ensures
        match r {
            Some(p) => import_path(use_text@) == Some(p@),
            None => import_path(use_text@) is None,
        },
{
    let t = chars_of(use_text);
    let prefix = chars_of("use ");
    if !starts_with_chars(t.as_slice(), prefix.as_slice()) {
        return None;
    }
    let rest = subvec(t.as_slice(), prefix.len(), t.len());
    let suffix = chars_of(";");
    if !ends_with_chars(rest.as_slice(), suffix.as_slice()) {
        return None;
    }
    let body = subvec(rest.as_slice(), 0, rest.len() - suffix.len());
    let trimmed = trim_exec(body.as_slice());
    let drop = chars_of("{}*");
    let cleaned = remove_chars_exec(trimmed.as_slice(), drop.as_slice());
    proof {
        assert(rest@ == use_text@.skip("use "@.len() as int));
        assert(body@ == rest@.take(rest@.len() - ";"@.len()));
    }
    Some(string_from(cleaned.as_slice()))
}

/// The imports of every `use` declaration in the tree under `n`, in preorder.
pub open spec fn node_imports(n: SyntaxNode) -> Seq<Seq<char>>
    decreases n,
{
    let own = if n.kind@ == "use_declaration"@ {
        match import_path(n.text@) {
            Some(p) => seq![p],
            None => Seq::empty(),
        }
    } else {
        Seq::empty()
    };
    own + list_imports(n.children@)
}

/// The imports of the trees rooted at `ns`, one after the other.
pub open spec fn list_imports(ns: Seq<SyntaxNode>) -> Seq<Seq<char>>
    decreases ns,
{
    if ns.len() == 0 {
        Seq::empty()
    } else {
        list_imports(ns.drop_last()) + node_imports(ns.last())
    }
}

fn collect_imports(n: &SyntaxNode, out: &mut Vec<String>)
    ensures
        views_of(final(out)@) == views_of(old(out)@) + node_imports(*n),
    decreases n,
{
    let ghost start = views_of(out@);
    if is_kind(n, "use_declaration") {
        match parse_import_path(n.text.as_str()) {
            Some(p) => {
                out.push(p);
            },
            None => {},
        }
    }
    let ghost own = views_of(out@).skip(start.len() as int);
    proof {
        assert(views_of(out@) =~= start + own);
        assert(own =~= (if n.kind@ == "use_declaration"@ {
            match import_path(n.text@) {
                Some(p) => seq![p],
                None => Seq::empty(),
            }
        } else {
            Seq::empty()
        }));
    }
    let mut i: usize = 0;
    while i < n.children.len()
        invariant
            i <= n.children@.len(),
            views_of(out@) == start + own + list_imports(n.children@.take(i as int)),
        decreases n.children@.len() - i,
    {
        let ghost before = views_of(out@);
        collect_imports(&n.children[i], out);
        proof {
            let ns = n.children@.take(i + 1);
            assert(ns.drop_last() =~= n.children@.take(i as int));
            assert(ns.last() == n.children@[i as int]);
        }
        i = i + 1;
    }
    proof {
        assert(n.children@.take(n.children@.len() as int) =~= n.children@);
    }
}

/// The paths imported by the `use` declarations of a file.
pub fn extract_file_imports(root: &SyntaxNode) -> (imports: Vec<String>)
    ensures
        views_of(imports@) == node_imports(*root),
{
    let mut imports: Vec<String> = Vec::new();
    collect_imports(root, &mut imports);
    proof {
        assert(views_of(Seq::<String>::empty()) =~= Seq::<Seq<char>>::empty());
    }
    imports
}

/// The visibility modifier of an item, or `private` when it has none.
pub open spec fn visibility_of(n: SyntaxNode) -> Seq<char> {
    match kind_text(n, "visibility_modifier"@) {
        Some(t) => t,
        None => "private"@,
    }
}

fn get_visibility(n: &SyntaxNode) -> (r: String)
    ensures
        r@ == visibility_of(*n),
{
    match kind_text_exec(n, "visibility_modifier") {
        Some(t) => t,
        None => String::from_str("private"),
    }
}

/// The trimmed pieces of `parts` that are not empty.
pub open spec fn kept_params(parts: Seq<Seq<char>>) -> Seq<Seq<char>>
    decreases parts.len(),
{
    if parts.len() == 0 {
        Seq::empty()
    } else {
        let t = trim(parts.last());
        if t.len() > 0 {
            kept_params(parts.drop_last()).push(t)
        } else {
            kept_params(parts.drop_last())
        }
    }
}

/// The parameters written in a parameter list: the text without its leading
/// `(`s and trailing `)`s, split at commas, each piece trimmed, empty pieces
/// dropped.
pub open spec fn params_of_text(t: Seq<char>) -> Seq<Seq<char>> {
    kept_params(split_seq(strip_all_suffix(strip_all_prefix(t, "("@), ")"@), ","@))
}

/// The parameters of a function item.
pub open spec fn function_parameters(n: SyntaxNode) -> Seq<Seq<char>> {
    match field_text(n, "parameters"@) {
        Some(t) => params_of_text(t),
        None => Seq::empty(),
    }
}

fn get_function_parameters(n: &SyntaxNode) -> (r: Vec<String>)
    ensures
        views_of(r@) == function_parameters(*n),
{
    let mut r: Vec<String> = Vec::new();
    match field_text_exec(n, "parameters") {
        None => {
            assert(views_of(r@) =~= Seq::<Seq<char>>::empty());
            r
        },
        Some(t) => {
            let tc = chars_of(t.as_str());
            let open = chars_of("(");
            let close = chars_of(")");
            let comma = chars_of(",");
            proof {
                reveal_strlit(",");
            }
            let a = strip_all_prefix_exec(tc.as_slice(), open.as_slice());
            let b = strip_all_suffix_exec(a.as_slice(), close.as_slice());
            let parts = split_chars(b.as_slice(), comma.as_slice());
            let ghost pv = views(parts@);
            let mut i: usize = 0;
            while i < parts.len()
                invariant
                    i <= parts@.len(),
                    pv == views(parts@),
                    views_of(r@) == kept_params(pv.take(i as int)),
                decreases parts@.len() - i,
            {
                let piece = trim_exec(parts[i].as_slice());
                proof {
                    assert(pv.take(i + 1).drop_last() =~= pv.take(i as int));
                    assert(pv[i as int] == parts@[i as int]@);
                }
                if piece.len() > 0 {
                    r.push(string_from(piece.as_slice()));
                    assert(views_of(r@) =~= kept_params(pv.take(i as int)).push(piece@));
                }
                i = i + 1;
            }
            assert(pv.take(pv.len() as int) =~= pv);
            r
        },
    }
}

/// The function that a `function_item` node declares inside `module` of the
/// file at `file`; none when the node has no name.
pub open spec fn function_of(n: SyntaxNode, module: Seq<char>, file: Seq<char>) -> Option<
    FunctionModel,
> {
    match field_text(n, "name"@) {
        None => None,
        Some(name) => Some(
            FunctionModel {
                name,
                qualified_name: qualify(module, name),
                file_path: file,
                line_start: n.start_row + 1,
                line_end: n.end_row + 1,
                module,
                visibility: visibility_of(n),
                parameters: function_parameters(n),
                return_type: field_text(n, "return_type"@),
            },
        ),
    }
}

/// Reads the function that a `function_item` node declares.
pub fn parse_function(n: &SyntaxNode, file_path: &str, module_prefix: &str) -> (r: Option<
    RustFunction,
>)
    requires
        n.start_row < usize::MAX,
        n.end_row < usize::MAX,
    ensures
        match r {
            Some(f) => function_of(*n, module_prefix@, file_path@) == Some(f@),
            None => function_of(*n, module_prefix@, file_path@) is None,
        },
{
    let name = match field_text_exec(n, "name") {
        Some(name) => name,
        None => {
            return None;
        },
    };
    let visibility = get_visibility(n);
    let parameters = get_function_parameters(n);
    let return_type = field_text_exec(n, "return_type");
    let qualified = qualified_name(module_prefix, name.as_str());
    Some(
        RustFunction {
            name,
            qualified_name: qualified,
            file_path: String::from_str(file_path),
            line_start: n.start_row + 1,
            line_end: n.end_row + 1,
            module: String::from_str(module_prefix),
            visibility,
            parameters,
            return_type,
        },
    )
}

/// The functions declared in the tree under `n`, in preorder. An item inside a
/// named `mod` is found twice: once under the module's path and once under the
/// enclosing path.
pub open spec fn node_functions(n: SyntaxNode, module: Seq<char>, file: Seq<char>) -> Seq<
    FunctionModel,
>
    decreases n,
{
    let own = if n.kind@ == "function_item"@ {
        match function_of(n, module, file) {
            Some(f) => seq![f],
            None => Seq::empty(),
        }
    } else if n.kind@ == "mod_item"@ {
        match field_text(n, "name"@) {
            Some(m) => list_functions(n.children@, qualify(module, m), file),
            None => Seq::empty(),
        }
    } else {
        Seq::empty()
    };
    own + list_functions(n.children@, module, file)
}

/// The functions of the trees rooted at `ns`, one after the other.
pub open spec fn list_functions(ns: Seq<SyntaxNode>, module: Seq<char>, file: Seq<char>) -> Seq<
    FunctionModel,
>
    decreases ns,
{
    if ns.len() == 0 {
        Seq::empty()
    } else {
        list_functions(ns.drop_last(), module, file) + node_functions(ns.last(), module, file)
    }
}

/// The models of a list of functions.
pub open spec fn function_models(fs: Seq<RustFunction>) -> Seq<FunctionModel> {
    fs.map_values(|f: RustFunction| f@)
}

fn collect_functions_in(
    ns: &Vec<SyntaxNode>,
    file_path: &str,
    module_prefix: &str,
    out: &mut Vec<RustFunction>,
)
    requires
        forall|i: int| 0 <= i < ns@.len() ==> #[trigger] rows_fit(ns@[i]),
    ensures
        function_models(final(out)@) == function_models(old(out)@) + list_functions(
            ns@,
            module_prefix@,
            file_path@,
        ),
    decreases ns@, 0nat,
{
    let ghost start = function_models(out@);
    let mut i: usize = 0;
    while i < ns.len()
        invariant
            i <= ns@.len(),
            forall|j: int| 0 <= j < ns@.len() ==> #[trigger] rows_fit(ns@[j]),
            function_models(out@) == start + list_functions(
                ns@.take(i as int),
                module_prefix@,
                file_path@,
            ),
        decreases ns@.len() - i,
    {
        collect_functions(&ns[i], file_path, module_prefix, out);
        proof {
            let t = ns@.take(i + 1);
            assert(t.drop_last() =~= ns@.take(i as int));
            assert(t.last() == ns@[i as int]);
        }
        i = i + 1;
    }
    assert(ns@.take(ns@.len() as int) =~= ns@);
}

fn collect_functions(
    n: &SyntaxNode,
    file_path: &str,
    module_prefix: &str,
    out: &mut Vec<RustFunction>,
)
    requires
        rows_fit(*n),
    ensures
        function_models(final(out)@) == function_models(old(out)@) + node_functions(
            *n,
            module_prefix@,
            file_path@,
        ),
    decreases n, 1nat,
{
    let ghost start = function_models(out@);
    proof {
        lemma_rows_fit_list(n.children@);
    }
    if is_kind(n, "function_item") {
        match parse_function(n, file_path, module_prefix) {
            Some(f) => {
                out.push(f);
                assert(function_models(out@) =~= start + seq![f@]);
            },
            None => {},
        }
    } else if is_kind(n, "mod_item") {
        match field_text_exec(n, "name") {
            Some(m) => {
                let inner = qualified_name(module_prefix, m.as_str());
                collect_functions_in(&n.children, file_path, inner.as_str(), out);
            },
            None => {},
        }
    }
    let ghost mid = function_models(out@);
    collect_functions_in(&n.children, file_path, module_prefix, out);
    proof {
        assert(mid =~= start + mid.skip(start.len() as int));
    }
}

/// The functions of a source file whose module path is `module_prefix`.
pub fn extract_functions(root: &SyntaxNode, file_path: &str, module_prefix: &str) -> (functions: Vec<
    RustFunction,
>)
    requires
        rows_fit(*root),
    ensures
        function_models(functions@) == node_functions(*root, module_prefix@, file_path@),
{
    let mut functions: Vec<RustFunction> = Vec::new();
    collect_functions(root, file_path, module_prefix, &mut functions);
    assert(function_models(Seq::<RustFunction>::empty()) =~= Seq::<FunctionModel>::empty());
    functions
}

/// The kind name recorded for a type item of grammar kind `k`.
pub open spec fn type_kind_name(k: Seq<char>) -> Seq<char> {
    if k == "struct_item"@ {
        "struct"@
    } else if k == "enum_item"@ {
        "enum"@
    } else if k == "trait_item"@ {
        "trait"@
    } else if k == "type_item"@ {
        "type_alias"@
    } else {
        "unknown"@
    }
}

/// Node kinds that declare a type: structs, enums, traits and type aliases.
pub open spec fn is_type_item(k: Seq<char>) -> bool {
    k == "struct_item"@ || k == "enum_item"@ || k == "trait_item"@ || k == "type_item"@
}

fn type_kind_name_exec(n: &SyntaxNode) -> (r: String)
    ensures
        r@ == type_kind_name(n.kind@),
{
    if is_kind(n, "struct_item") {
        String::from_str("struct")
    } else if is_kind(n, "enum_item") {
        String::from_str("enum")
    } else if is_kind(n, "trait_item") {
        String::from_str("trait")
    } else if is_kind(n, "type_item") {
        String::from_str("type_alias")
    } else {
        String::from_str("unknown")
    }
}

/// The type that a type-item node declares inside `module` of the file at
/// `file`; none when the node has no name.
pub open spec fn type_of(n: SyntaxNode, module: Seq<char>, file: Seq<char>) -> Option<TypeModel> {
    match field_text(n, "name"@) {
        None => None,
        Some(name) => Some(
            TypeModel {
                name,
                qualified_name: qualify(module, name),
                file_path: file,
                line_start: n.start_row + 1,
                line_end: n.end_row + 1,
                module,
                visibility: visibility_of(n),
                type_kind: type_kind_name(n.kind@),
            },
        ),
    }
}

/// Reads the type that a struct, enum, trait or type-alias node declares.
pub fn parse_type(n: &SyntaxNode, file_path: &str, module_prefix: &str) -> (r: Option<RustType>)
    requires
        n.start_row < usize::MAX,
        n.end_row < usize::MAX,
    ensures
        match r {
            Some(t) => type_of(*n, module_prefix@, file_path@) == Some(t@),
            None => type_of(*n, module_prefix@, file_path@) is None,
        },
{
    let name = match field_text_exec(n, "name") {
        Some(name) => name,
        None => {
            return None;
        },
    };
    let visibility = get_visibility(n);
    let type_kind = type_kind_name_exec(n);
    let qualified = qualified_name(module_prefix, name.as_str());
    Some(
        RustType {
            name,
            qualified_name: qualified,
            file_path: String::from_str(file_path),
            line_start: n.start_row + 1,
            line_end: n.end_row + 1,
            module: String::from_str(module_prefix),
            visibility,
            type_kind,
        },
    )
}

/// The types declared in the tree under `n`, in preorder. The inside of a type
/// item is not searched; a named `mod` is searched under its own path only.
pub open spec fn node_types(n: SyntaxNode, module: Seq<char>, file: Seq<char>) -> Seq<TypeModel>
    decreases n,
{
    if is_type_item(n.kind@) {
        match type_of(n, module, file) {
            Some(t) => seq![t],
            None => Seq::empty(),
        }
    } else if n.kind@ == "mod_item"@ {
        match field_text(n, "name"@) {
            Some(m) => list_types(n.children@, qualify(module, m), file),
            None => Seq::empty(),
        }
    } else {
        list_types(n.children@, module, file)
    }
}

/// The types of the trees rooted at `ns`, one after the other.
pub open spec fn list_types(ns: Seq<SyntaxNode>, module: Seq<char>, file: Seq<char>) -> Seq<
    TypeModel,
>
    decreases ns,
{
    if ns.len() == 0 {
        Seq::empty()
    } else {
        list_types(ns.drop_last(), module, file) + node_types(ns.last(), module, file)
    }
}

/// The models of a list of types.
pub open spec fn type_models(ts: Seq<RustType>) -> Seq<TypeModel> {
    ts.map_values(|t: RustType| t@)
}

fn collect_types_in(
    ns: &Vec<SyntaxNode>,
    file_path: &str,
    module_prefix: &str,
    out: &mut Vec<RustType>,
)
    requires
        forall|i: int| 0 <= i < ns@.len() ==> #[trigger] rows_fit(ns@[i]),
    ensures
        type_models(final(out)@) == type_models(old(out)@) + list_types(
            ns@,
            module_prefix@,
            file_path@,
        ),
    decreases ns@, 0nat,
{
    let ghost start = type_models(out@);
    let mut i: usize = 0;
    while i < ns.len()
        invariant
            i <= ns@.len(),
            forall|j: int| 0 <= j < ns@.len() ==> #[trigger] rows_fit(ns@[j]),
            type_models(out@) == start + list_types(ns@.take(i as int), module_prefix@, file_path@),
        decreases ns@.len() - i,
    {
        collect_types(&ns[i], file_path, module_prefix, out);
        proof {
            let t = ns@.take(i + 1);
            assert(t.drop_last() =~= ns@.take(i as int));
            assert(t.last() == ns@[i as int]);
        }
        i = i + 1;
    }
    assert(ns@.take(ns@.len() as int) =~= ns@);
}

fn collect_types(n: &SyntaxNode, file_path: &str, module_prefix: &str, out: &mut Vec<RustType>)
    requires
        rows_fit(*n),
    ensures
        type_models(final(out)@) == type_models(old(out)@) + node_types(
            *n,
            module_prefix@,
            file_path@,
        ),
    decreases n, 1nat,
{
    let ghost start = type_models(out@);
    proof {
        lemma_rows_fit_list(n.children@);
    }
    if is_kind(n, "struct_item") || is_kind(n, "enum_item") || is_kind(n, "trait_item") || is_kind(
        n,
        "type_item",
    ) {
        match parse_type(n, file_path, module_prefix) {
            Some(t) => {
                out.push(t);
                assert(type_models(out@) =~= start + seq![t@]);
            },
            None => {
                assert(type_models(out@) =~= start + Seq::<TypeModel>::empty());
            },
        }
    } else if is_kind(n, "mod_item") {
        match field_text_exec(n, "name") {
            Some(m) => {
                let inner = qualified_name(module_prefix, m.as_str());
                collect_types_in(&n.children, file_path, inner.as_str(), out);
            },
            None => {
                assert(type_models(out@) =~= start + Seq::<TypeModel>::empty());
            },
        }
    } else {
        collect_types_in(&n.children, file_path, module_prefix, out);
    }
}

/// The types of a source file whose module path is `module_prefix`.
pub fn extract_types(root: &SyntaxNode, file_path: &str, module_prefix: &str) -> (types: Vec<
    RustType,
>)
    requires
        rows_fit(*root),
    ensures
        type_models(types@) == node_types(*root, module_prefix@, file_path@),
{
    let mut types: Vec<RustType> = Vec::new();
    collect_types(root, file_path, module_prefix, &mut types);
    assert(type_models(Seq::<RustType>::empty()) =~= Seq::<TypeModel>::empty());
    types
}

/// Number of whitespace characters at the start of `s`.
pub open spec fn leading_ws(s: Seq<char>) -> nat
    decreases s.len(),
{
    if s.len() > 0 && is_whitespace(s[0]) {
        1 + leading_ws(s.drop_first())
    } else {
        0
    }
}

/// Number of non-whitespace characters at the start of `s`.
pub open spec fn leading_word(s: Seq<char>) -> nat
    decreases s.len(),
{
    if s.len() > 0 && !is_whitespace(s[0]) {
        1 + leading_word(s.drop_first())
    } else {
        0
    }
}

/// The second whitespace-separated word of `s` (`split_whitespace().nth(1)`).
pub open spec fn second_word(s: Seq<char>) -> Option<Seq<char>> {
    let a = s.skip(leading_ws(s) as int);
    let b = a.skip(leading_word(a) as int);
    let c = b.skip(leading_ws(b) as int);
    if c.len() == 0 {
        None
    } else {
        Some(c.take(leading_word(c) as int))
    }
}

proof fn lemma_leading_bounds(s: Seq<char>)
    ensures
        leading_ws(s) <= s.len(),
        leading_word(s) <= s.len(),
    decreases s.len(),
{
    if s.len() > 0 {
        lemma_leading_bounds(s.drop_first());
    }
}

/// Position of the first character at or after `from` that is (`ws`) or is not
/// whitespace, or the length.
fn skip_run(s: &[char], from: usize, ws: bool) -> (r: usize)
    requires
        from <= s@.len(),
    ensures
        from <= r <= s@.len(),
        ws ==> r == from + leading_ws(s@.skip(from as int)),
        !ws ==> r == from + leading_word(s@.skip(from as int)),
{
    let mut i: usize = from;
    while i < s.len() && is_whitespace_exec(s[i]) == ws
        invariant
            from <= i <= s@.len(),
            ws ==> from + leading_ws(s@.skip(from as int)) == i + leading_ws(s@.skip(i as int)),
            !ws ==> from + leading_word(s@.skip(from as int)) == i + leading_word(
                s@.skip(i as int),
            ),
        decreases s@.len() - i,
    {
        proof {
            assert(s@.skip(i as int).drop_first() =~= s@.skip(i + 1));
            assert(s@.skip(i as int)[0] == s@[i as int]);
        }
        i = i + 1;
    }
    proof {
        if i < s@.len() {
            assert(s@.skip(i as int)[0] == s@[i as int]);
        }
    }
    i
}

/// The second whitespace-separated word of `t`.
pub fn second_word_exec(t: &str) -> (r: Option<Vec<char>>)
    ensures
        match r {
            Some(w) => second_word(t@) == Some(w@),
            None => second_word(t@) is None,
        },
{
    let s = chars_of(t);
    let i = skip_run(s.as_slice(), 0, true);
    let j = skip_run(s.as_slice(), i, false);
    let k = skip_run(s.as_slice(), j, true);
    proof {
        let a = s@.skip(leading_ws(s@) as int);
        assert(s@.skip(0) =~= s@);
        assert(a =~= s@.skip(i as int));
        let b = a.skip(leading_word(a) as int);
        assert(b =~= s@.skip(j as int));
        let c = b.skip(leading_ws(b) as int);
        assert(c =~= s@.skip(k as int));
    }
    if k == s.len() {
        return None;
    }
    let l = skip_run(s.as_slice(), k, false);
    proof {
        let c = s@.skip(k as int);
        assert(c.take(leading_word(c) as int) =~= s@.subrange(k as int, l as int));
    }
    Some(subvec(s.as_slice(), k, l))
}

/// The dependency that a `use` declaration records: on its second word without
/// trailing `;`s.
pub open spec fn use_dependency(n: SyntaxNode, file: Seq<char>) -> Option<DependencyModel> {
    match second_word(n.text@) {
        None => None,
        Some(w) => Some(
            DependencyModel {
                from_module: file_module(file),
                to_module: strip_all_suffix(w, ";"@),
                dependency_type: "use"@,
                file_path: file,
                line: n.start_row + 1,
            },
        ),
    }
}

/// The dependency that a qualified call records: on the path before its last `::`.
pub open spec fn call_dependency(n: SyntaxNode, file: Seq<char>) -> Option<DependencyModel> {
    match field_text(n, "function"@) {
        None => None,
        Some(call) => if contains_seq(call, "::"@) {
            Some(
                DependencyModel {
                    from_module: file_module(file),
                    to_module: call.take(rfind(call, "::"@)),
                    dependency_type: "call"@,
                    file_path: file,
                    line: n.start_row + 1,
                },
            )
        } else {
            None
        },
    }
}

/// Reads the dependency of a `use` declaration.
pub fn parse_use_dependency(n: &SyntaxNode, file_path: &str) -> (r: Option<Dependency>)
    requires
        n.start_row < usize::MAX,
    ensures
        match r {
            Some(d) => use_dependency(*n, file_path@) == Some(d@),
            None => use_dependency(*n, file_path@) is None,
        },
{
    match second_word_exec(n.text.as_str()) {
        None => None,
        Some(w) => {
            let semi = chars_of(";");
            let m = strip_all_suffix_exec(w.as_slice(), semi.as_slice());
            Some(
                Dependency {
                    from_module: get_file_module(file_path),
                    to_module: string_from(m.as_slice()),
                    dependency_type: String::from_str("use"),
                    file_path: String::from_str(file_path),
                    line: n.start_row + 1,
                },
            )
        },
    }
}

/// Reads the dependency of a call whose callee is a qualified path.
pub fn parse_call_dependency(n: &SyntaxNode, file_path: &str) -> (r: Option<Dependency>)
    requires
        n.start_row < usize::MAX,
    ensures
        match r {
            Some(d) => call_dependency(*n, file_path@) == Some(d@),
            None => call_dependency(*n, file_path@) is None,
        },
{
    let call = match field_text_exec(n, "function") {
        None => {
            return None;
        },
        Some(c) => c,
    };
    let cc = chars_of(call.as_str());
    let sep = chars_of("::");
    proof {
        lemma_rfind(cc@, "::"@);
    }
    match rfind_exec(cc.as_slice(), sep.as_slice()) {
        None => {
            proof {
                if contains_seq(cc@, "::"@) {
                    let w = choose|w: int| crate::text::occurs_at(cc@, "::"@, w);
                    assert(rfind(cc@, "::"@) >= w);
                }
            }
            None
        },
        Some(pos) => {
            let to = subvec(cc.as_slice(), 0, pos);
            Some(
                Dependency {
                    from_module: get_file_module(file_path),
                    to_module: string_from(to.as_slice()),
                    dependency_type: String::from_str("call"),
                    file_path: String::from_str(file_path),
                    line: n.start_row + 1,
                },
            )
        },
    }
}

/// How a plain call names its callee: by a qualified path, through an import of
/// the file, or directly.
pub open spec fn call_type_of(call: Seq<char>, imports: Seq<Seq<char>>) -> CallType {
    if contains_seq(call, "::"@) {
        CallType::Qualified
    } else if exists|i: int| 0 <= i < imports.len() && ends_with(imports[i], "::"@ + call) {
        CallType::Import
    } else {
        CallType::Direct
    }
}

/// A path or caller name that marks test code.
pub open spec fn in_test_code(file: Seq<char>, caller: Seq<char>) -> bool {
    contains_seq(file, "/tests/"@) || contains_seq(caller, "test"@)
}

/// The reference that a `call_expression` records.
pub open spec fn function_call_ref(
    n: SyntaxNode,
    caller: Seq<char>,
    file: Seq<char>,
    krate: Seq<char>,
    imports: Seq<Seq<char>>,
) -> Option<ReferenceModel> {
    match field_text(n, "function"@) {
        None => None,
        Some(call) => Some(
            ReferenceModel {
                target_function: call,
                calling_function: caller,
                call_type: call_type_of(call, imports),
                cross_crate: cross_crate_call(call, krate),
                from_test: in_test_code(file, caller) || contains_seq(file, "test_"@),
                file_path: file,
                line: n.start_row + 1,
            },
        ),
    }
}

/// The reference that a `method_call_expression` records; it is cross-crate when
/// the method or its receiver is a path into another crate.
pub open spec fn method_call_ref(n: SyntaxNode, caller: Seq<char>, file: Seq<char>, krate: Seq<char>) -> Option<
    ReferenceModel,
> {
    match field_text(n, "method"@) {
        None => None,
        Some(m) => Some(
            ReferenceModel {
                target_function: m,
                calling_function: caller,
                call_type: CallType::Method,
                cross_crate: cross_crate_call(m, krate) || match field_text(n, "receiver"@) {
                    Some(r) => cross_crate_call(r, krate),
                    None => false,
                },
                from_test: in_test_code(file, caller),
                file_path: file,
                line: n.start_row + 1,
            },
        ),
    }
}

/// The reference that a `macro_invocation` records, named with a trailing `!`.
pub open spec fn macro_call_ref(n: SyntaxNode, caller: Seq<char>, file: Seq<char>, krate: Seq<char>) -> Option<
    ReferenceModel,
> {
    match field_text(n, "macro"@) {
        None => None,
        Some(m) => Some(
            ReferenceModel {
                target_function: m + "!"@,
                calling_function: caller,
                call_type: CallType::Macro,
                cross_crate: cross_crate_call(m, krate),
                from_test: in_test_code(file, caller),
                file_path: file,
                line: n.start_row + 1,
            },
        ),
    }
}

/// The reference that an `impl_item` records when it implements a trait of
/// another crate.
pub open spec fn trait_impl_ref(n: SyntaxNode, caller: Seq<char>, file: Seq<char>, krate: Seq<char>) -> Option<
    ReferenceModel,
> {
    match field_text(n, "trait"@) {
        None => None,
        Some(t) => if cross_crate_call(t, krate) {
            Some(
                ReferenceModel {
                    target_function: "impl "@ + t,
                    calling_function: caller,
                    call_type: CallType::TraitImpl,
                    cross_crate: true,
                    from_test: in_test_code(file, caller),
                    file_path: file,
                    line: n.start_row + 1,
                },
            )
        } else {
            None
        },
    }
}

fn concat_str(a: &str, b: &str) -> (r: String)
    ensures
        r@ == a@ + b@,
{
    let s = String::from_str(a);
    s.concat(b)
}

fn in_test_code_exec(file_path: &str, caller: &str) -> (b: bool)
    ensures
        b == in_test_code(file_path@, caller@),
{
    str_contains(file_path, "/tests/") || str_contains(caller, "test")
}

/// Reads the reference of a plain call.
pub fn parse_function_call(
    n: &SyntaxNode,
    file_path: &str,
    current_function: &str,
    file_imports: &[String],
    current_crate: &str,
) -> (r: Option<FunctionReference>)
    requires
        n.start_row < usize::MAX,
    ensures
        match r {
            Some(f) => function_call_ref(
                *n,
                current_function@,
                file_path@,
                current_crate@,
                views_of(file_imports@),
            ) == Some(f@),
            None => function_call_ref(
                *n,
                current_function@,
                file_path@,
                current_crate@,
                views_of(file_imports@),
            ) is None,
        },
{
    let call = match field_text_exec(n, "function") {
        None => {
            return None;
        },
        Some(c) => c,
    };
    let ghost iv = views_of(file_imports@);
    let call_type = if str_contains(call.as_str(), "::") {
        CallType::Qualified
    } else {
        let suffix = concat_str("::", call.as_str());
        let mut found = false;
        let mut i: usize = 0;
        while i < file_imports.len()
            invariant
                i <= file_imports@.len(),
                iv == views_of(file_imports@),
                suffix@ == "::"@ + call@,
                found == exists|j: int| 0 <= j < i && ends_with(iv[j], "::"@ + call@),
            decreases file_imports@.len() - i,
        {
            if str_ends_with(file_imports[i].as_str(), suffix.as_str()) {
                found = true;
            }
            proof {
                assert(iv[i as int] == file_imports@[i as int]@);
                if found {
                    if ends_with(iv[i as int], "::"@ + call@) {
                        assert(exists|j: int| 0 <= j < i + 1 && ends_with(iv[j], "::"@ + call@));
                    }
                }
            }
            i = i + 1;
        }
        if found {
            CallType::Import
        } else {
            CallType::Direct
        }
    };
    let from_test = in_test_code_exec(file_path, current_function) || str_contains(
        file_path,
        "test_",
    );
    let cross_crate = is_cross_crate_call(call.as_str(), current_crate);
    Some(
        FunctionReference {
            target_function: call,
            calling_function: String::from_str(current_function),
            call_type,
            cross_crate,
            from_test,
            file_path: String::from_str(file_path),
            line: n.start_row + 1,
        },
    )
}

/// Reads the reference of a method call.
pub fn parse_method_call(
    n: &SyntaxNode,
    file_path: &str,
    current_function: &str,
    current_crate: &str,
) -> (r: Option<FunctionReference>)
    requires
        n.start_row < usize::MAX,
    ensures
        match r {
            Some(f) => method_call_ref(*n, current_function@, file_path@, current_crate@) == Some(
                f@,
            ),
            None => method_call_ref(*n, current_function@, file_path@, current_crate@) is None,
        },
{
    let m = match field_text_exec(n, "method") {
        None => {
            return None;
        },
        Some(m) => m,
    };
    let mut cross_crate = is_cross_crate_call(m.as_str(), current_crate);
    if !cross_crate {
        match field_text_exec(n, "receiver") {
            Some(r) => {
                cross_crate = is_cross_crate_call(r.as_str(), current_crate);
            },
            None => {},
        }
    }
    Some(
        FunctionReference {
            target_function: m,
            calling_function: String::from_str(current_function),
            call_type: CallType::Method,
            cross_crate,
            from_test: in_test_code_exec(file_path, current_function),
            file_path: String::from_str(file_path),
            line: n.start_row + 1,
        },
    )
}

/// Reads the reference of a macro invocation.
pub fn parse_macro_call(
    n: &SyntaxNode,
    file_path: &str,
    current_function: &str,
    current_crate: &str,
) -> (r: Option<FunctionReference>)
    requires
        n.start_row < usize::MAX,
    ensures
        match r {
            Some(f) => macro_call_ref(*n, current_function@, file_path@, current_crate@) == Some(
                f@,
            ),
            None => macro_call_ref(*n, current_function@, file_path@, current_crate@) is None,
        },
{
    let m = match field_text_exec(n, "macro") {
        None => {
            return None;
        },
        Some(m) => m,
    };
    let cross_crate = is_cross_crate_call(m.as_str(), current_crate);
    Some(
        FunctionReference {
            target_function: concat_str(m.as_str(), "!"),
            calling_function: String::from_str(current_function),
            call_type: CallType::Macro,
            cross_crate,
            from_test: in_test_code_exec(file_path, current_function),
            file_path: String::from_str(file_path),
            line: n.start_row + 1,
        },
    )
}

/// Reads the reference of an implementation of another crate's trait.
pub fn parse_trait_impl(
    n: &SyntaxNode,
    file_path: &str,
    current_function: &str,
    current_crate: &str,
) -> (r: Option<FunctionReference>)
    requires
        n.start_row < usize::MAX,
    ensures
        match r {
            Some(f) => trait_impl_ref(*n, current_function@, file_path@, current_crate@) == Some(
                f@,
            ),
            None => trait_impl_ref(*n, current_function@, file_path@, current_crate@) is None,
        },
{
    let t = match field_text_exec(n, "trait") {
        None => {
            return None;
        },
        Some(t) => t,
    };
    if !is_cross_crate_call(t.as_str(), current_crate) {
        return None;
    }
    Some(
        FunctionReference {
            target_function: concat_str("impl ", t.as_str()),
            calling_function: String::from_str(current_function),
            call_type: CallType::TraitImpl,
            cross_crate: true,
            from_test: in_test_code_exec(file_path, current_function),
            file_path: String::from_str(file_path),
            line: n.start_row + 1,
        },
    )
}

/// The caller after visiting `n` in a walk over the items of `module`: a named
/// function item becomes the caller of what follows it.
pub open spec fn next_caller(n: SyntaxNode, module: Seq<char>, cur: Seq<char>) -> Seq<char> {
    if n.kind@ == "function_item"@ {
        match field_text(n, "name"@) {
            Some(f) => qualify(module, f),
            None => cur,
        }
    } else {
        cur
    }
}

/// The caller in effect when the walk over the sibling list `ns` reaches `ns[i]`;
/// each walk starts with the module itself as the caller.
pub open spec fn caller_at(ns: Seq<SyntaxNode>, module: Seq<char>, i: int) -> Seq<char>
    decreases i,
{
    if i <= 0 {
        module
    } else {
        next_caller(ns[i - 1], module, caller_at(ns, module, i - 1))
    }
}

proof fn lemma_caller_at_prefix(ns: Seq<SyntaxNode>, k: int, module: Seq<char>, i: int)
    requires
        0 <= i <= k <= ns.len(),
    ensures
        caller_at(ns.take(k), module, i) == caller_at(ns, module, i),
    decreases i,
{
    if i > 0 {
        lemma_caller_at_prefix(ns, k, module, i - 1);
        assert(ns.take(k)[i - 1] == ns[i - 1]);
    }
}

/// The optional item as a list of at most one.
pub open spec fn opt_seq<A>(o: Option<A>) -> Seq<A> {
    match o {
        Some(a) => seq![a],
        None => Seq::empty(),
    }
}

/// The reference that node `n` itself records when visited with caller `cur`.
pub open spec fn own_refs(
    n: SyntaxNode,
    cur: Seq<char>,
    file: Seq<char>,
    krate: Seq<char>,
    imports: Seq<Seq<char>>,
) -> Seq<ReferenceModel> {
    if n.kind@ == "call_expression"@ {
        opt_seq(function_call_ref(n, cur, file, krate, imports))
    } else if n.kind@ == "method_call_expression"@ {
        opt_seq(method_call_ref(n, cur, file, krate))
    } else if n.kind@ == "macro_invocation"@ {
        opt_seq(macro_call_ref(n, cur, file, krate))
    } else if n.kind@ == "impl_item"@ {
        opt_seq(trait_impl_ref(n, cur, file, krate))
    } else {
        Seq::empty()
    }
}

/// The dependency that node `n` itself records.
pub open spec fn own_deps(n: SyntaxNode, file: Seq<char>) -> Seq<DependencyModel> {
    if n.kind@ == "use_declaration"@ {
        opt_seq(use_dependency(n, file))
    } else if n.kind@ == "call_expression"@ {
        opt_seq(call_dependency(n, file))
    } else {
        Seq::empty()
    }
}

/// The references recorded in the tree under `n`, visited with caller `cur`;
/// the walk over its children starts afresh with the module as caller.
pub open spec fn node_refs(
    n: SyntaxNode,
    cur: Seq<char>,
    module: Seq<char>,
    file: Seq<char>,
    krate: Seq<char>,
    imports: Seq<Seq<char>>,
) -> Seq<ReferenceModel>
    decreases n,
{
    own_refs(n, cur, file, krate, imports) + list_refs(n.children@, module, file, krate, imports)
}

/// The references recorded in the trees of the sibling list `ns`.
pub open spec fn list_refs(
    ns: Seq<SyntaxNode>,
    module: Seq<char>,
    file: Seq<char>,
    krate: Seq<char>,
    imports: Seq<Seq<char>>,
) -> Seq<ReferenceModel>
    decreases ns,
{
    if ns.len() == 0 {
        Seq::empty()
    } else {
        list_refs(ns.drop_last(), module, file, krate, imports) + node_refs(
            ns.last(),
            caller_at(ns, module, ns.len() - 1),
            module,
            file,
            krate,
            imports,
        )
    }
}

/// The dependencies recorded in the tree under `n`, in preorder.
pub open spec fn node_deps(n: SyntaxNode, file: Seq<char>) -> Seq<DependencyModel>
    decreases n,
{
    own_deps(n, file) + list_deps(n.children@, file)
}

/// The dependencies recorded in the trees of `ns`, one after the other.
pub open spec fn list_deps(ns: Seq<SyntaxNode>, file: Seq<char>) -> Seq<DependencyModel>
    decreases ns,
{
    if ns.len() == 0 {
        Seq::empty()
    } else {
        list_deps(ns.drop_last(), file) + node_deps(ns.last(), file)
    }
}

/// The models of a list of references.
pub open spec fn reference_models(rs: Seq<FunctionReference>) -> Seq<ReferenceModel> {
    rs.map_values(|r: FunctionReference| r@)
}

/// The models of a list of dependencies.
pub open spec fn dependency_models(ds: Seq<Dependency>) -> Seq<DependencyModel> {
    ds.map_values(|d: Dependency| d@)
}

/// What one file is read in: its path, its crate, its module path and its imports.
pub struct FileContext<'a> {
    pub file_path: &'a str,
    pub current_crate: &'a str,
    pub module_prefix: &'a str,
    pub file_imports: &'a [String],
}

fn push_opt_ref(out: &mut Vec<FunctionReference>, r: Option<FunctionReference>)
    ensures
        reference_models(final(out)@) == reference_models(old(out)@) + opt_seq(
            match r {
                Some(x) => Some(x@),
                None => None,
            },
        ),
{
    let ghost before = reference_models(out@);
    match r {
        Some(x) => {
            out.push(x);
            assert(reference_models(out@) =~= before + seq![x@]);
        },
        None => {
            assert(reference_models(out@) =~= before + Seq::<ReferenceModel>::empty());
        },
    }
}

fn push_opt_dep(out: &mut Vec<Dependency>, d: Option<Dependency>)
    ensures
        dependency_models(final(out)@) == dependency_models(old(out)@) + opt_seq(
            match d {
                Some(x) => Some(x@),
                None => None,
            },
        ),
{
    let ghost before = dependency_models(out@);
    match d {
        Some(x) => {
            out.push(x);
            assert(dependency_models(out@) =~= before + seq![x@]);
        },
        None => {
            assert(dependency_models(out@) =~= before + Seq::<DependencyModel>::empty());
        },
    }
}

fn collect_refs(
    n: &SyntaxNode,
    cx: &FileContext,
    current_function: &str,
    deps: &mut Vec<Dependency>,
    refs: &mut Vec<FunctionReference>,
)
    requires
        rows_fit(*n),
    ensures
        dependency_models(final(deps)@) == dependency_models(old(deps)@) + node_deps(
            *n,
            cx.file_path@,
        ),
        reference_models(final(refs)@) == reference_models(old(refs)@) + node_refs(
            *n,
            current_function@,
            cx.module_prefix@,
            cx.file_path@,
            cx.current_crate@,
            views_of(cx.file_imports@),
        ),
    decreases n, 1nat,
{
    proof {
        lemma_rows_fit_list(n.children@);
    }
    let ghost d0 = dependency_models(deps@);
    let ghost r0 = reference_models(refs@);
    if is_kind(n, "use_declaration") {
        push_opt_dep(deps, parse_use_dependency(n, cx.file_path));
        proof {
            reveal_strlit("use_declaration");
            reveal_strlit("call_expression");
            reveal_strlit("method_call_expression");
            reveal_strlit("macro_invocation");
            reveal_strlit("impl_item");
            assert("use_declaration"@[0] != "call_expression"@[0]);
            assert("use_declaration"@[0] != "method_call_expression"@[0]);
            assert("use_declaration"@[1] != "macro_invocation"@[1]);
            assert("use_declaration"@[0] != "impl_item"@[0]);
            assert(own_refs(
                *n,
                current_function@,
                cx.file_path@,
                cx.current_crate@,
                views_of(cx.file_imports@),
            ) =~= Seq::<ReferenceModel>::empty());
        }
    } else if is_kind(n, "call_expression") {
        push_opt_ref(
            refs,
            parse_function_call(n, cx.file_path, current_function, cx.file_imports, cx.current_crate),
        );
        push_opt_dep(deps, parse_call_dependency(n, cx.file_path));
    } else if is_kind(n, "method_call_expression") {
        push_opt_ref(refs, parse_method_call(n, cx.file_path, current_function, cx.current_crate));
    } else if is_kind(n, "macro_invocation") {
        push_opt_ref(refs, parse_macro_call(n, cx.file_path, current_function, cx.current_crate));
    } else if is_kind(n, "impl_item") {
        push_opt_ref(refs, parse_trait_impl(n, cx.file_path, current_function, cx.current_crate));
    }
    let ghost d1 = dependency_models(deps@);
    let ghost r1 = reference_models(refs@);
    proof {
        assert(d1 =~= d0 + own_deps(*n, cx.file_path@));
        assert(r1 =~= r0 + own_refs(
            *n,
            current_function@,
            cx.file_path@,
            cx.current_crate@,
            views_of(cx.file_imports@),
        ));
    }
    collect_refs_in(&n.children, cx, deps, refs);
}

fn collect_refs_in(
    ns: &Vec<SyntaxNode>,
    cx: &FileContext,
    deps: &mut Vec<Dependency>,
    refs: &mut Vec<FunctionReference>,
)
    requires
        forall|i: int| 0 <= i < ns@.len() ==> #[trigger] rows_fit(ns@[i]),
    ensures
        dependency_models(final(deps)@) == dependency_models(old(deps)@) + list_deps(
            ns@,
            cx.file_path@,
        ),
        reference_models(final(refs)@) == reference_models(old(refs)@) + list_refs(
            ns@,
            cx.module_prefix@,
            cx.file_path@,
            cx.current_crate@,
            views_of(cx.file_imports@),
        ),
    decreases ns@, 0nat,
{
    let ghost d0 = dependency_models(deps@);
    let ghost r0 = reference_models(refs@);
    let ghost iv = views_of(cx.file_imports@);
    let mut current_function = String::from_str(cx.module_prefix);
    let mut i: usize = 0;
    while i < ns.len()
        invariant
            i <= ns@.len(),
            forall|j: int| 0 <= j < ns@.len() ==> #[trigger] rows_fit(ns@[j]),
            iv == views_of(cx.file_imports@),
            current_function@ == caller_at(ns@, cx.module_prefix@, i as int),
            dependency_models(deps@) == d0 + list_deps(ns@.take(i as int), cx.file_path@),
            reference_models(refs@) == r0 + list_refs(
                ns@.take(i as int),
                cx.module_prefix@,
                cx.file_path@,
                cx.current_crate@,
                iv,
            ),
        decreases ns@.len() - i,
    {
        let node = &ns[i];
        collect_refs(node, cx, current_function.as_str(), deps, refs);
        proof {
            let t = ns@.take(i + 1);
            assert(t.drop_last() =~= ns@.take(i as int));
            assert(t.last() == ns@[i as int]);
            lemma_caller_at_prefix(ns@, i + 1, cx.module_prefix@, i as int);
        }
        if is_kind(node, "function_item") {
            match field_text_exec(node, "name") {
                Some(f) => {
                    current_function = qualified_name(cx.module_prefix, f.as_str());
                },
                None => {},
            }
        }
        i = i + 1;
    }
    assert(ns@.take(ns@.len() as int) =~= ns@);
}

/// The dependencies and call references of a source file, whose module path is
/// `module_prefix` and whose crate is `current_crate`; calls are read against
/// the file's own imports.
pub fn extract_dependencies_and_references(
    root: &SyntaxNode,
    file_path: &str,
    module_prefix: &str,
    current_crate: &str,
) -> (r: (Vec<Dependency>, Vec<FunctionReference>))
    requires
        rows_fit(*root),
    ensures
        dependency_models(r.0@) == node_deps(*root, file_path@),
        reference_models(r.1@) == node_refs(
            *root,
            module_prefix@,
            module_prefix@,
            file_path@,
            current_crate@,
            node_imports(*root),
        ),
{
    let imports = extract_file_imports(root);
    let cx = FileContext {
        file_path,
        current_crate,
        module_prefix,
        file_imports: imports.as_slice(),
    };
    let mut deps: Vec<Dependency> = Vec::new();
    let mut refs: Vec<FunctionReference> = Vec::new();
    collect_refs(root, &cx, module_prefix, &mut deps, &mut refs);
    assert(dependency_models(Seq::<Dependency>::empty()) =~= Seq::<DependencyModel>::empty());
    assert(reference_models(Seq::<FunctionReference>::empty()) =~= Seq::<ReferenceModel>::empty());
    (deps, refs)
}

/// A method call names its method, is recorded as a method call, and is
/// cross-crate whenever its receiver is a path into another crate, whatever
/// the method's own name (a bare method name never holds `::`).
pub proof fn lemma_method_call_receiver_cross_crate(
    n: SyntaxNode,
    caller: Seq<char>,
    file: Seq<char>,
    krate: Seq<char>,
)
    requires
        field_text(n, "method"@) is Some,
    ensures
        method_call_ref(n, caller, file, krate) is Some,
        method_call_ref(n, caller, file, krate)->0.target_function == field_text(n, "method"@)->0,
        method_call_ref(n, caller, file, krate)->0.call_type == CallType::Method,
        method_call_ref(n, caller, file, krate)->0.line == n.start_row + 1,
        forall|r: Seq<char>|
            field_text(n, "receiver"@) == Some(r) && #[trigger] cross_crate_call(r, krate)
                ==> method_call_ref(n, caller, file, krate)->0.cross_crate,
{
}

/// A named struct, enum, trait or type-alias item declares exactly one type:
/// under its name, qualified by the module, with the kind of item it is
/// (`struct`, `enum`, `trait` or `type_alias`), spanning the item's lines.
pub proof fn lemma_type_item_declares_type(n: SyntaxNode, module: Seq<char>, file: Seq<char>)
    requires
        n.kind@ == "struct_item"@ || n.kind@ == "enum_item"@ || n.kind@ == "trait_item"@
            || n.kind@ == "type_item"@,
        field_text(n, "name"@) is Some,
    ensures
        node_types(n, module, file).len() == 1,
        node_types(n, module, file)[0].name == field_text(n, "name"@)->0,
        node_types(n, module, file)[0].qualified_name == (if module.len() == 0 {
            field_text(n, "name"@)->0
        } else {
            module + "::"@ + field_text(n, "name"@)->0
        }),
        node_types(n, module, file)[0].module == module,
        node_types(n, module, file)[0].file_path == file,
        node_types(n, module, file)[0].line_start == n.start_row + 1,
        node_types(n, module, file)[0].line_end == n.end_row + 1,
        n.kind@ == "trait_item"@ ==> node_types(n, module, file)[0].type_kind == "trait"@,
        n.kind@ == "struct_item"@ ==> node_types(n, module, file)[0].type_kind == "struct"@,
        n.kind@ == "enum_item"@ ==> node_types(n, module, file)[0].type_kind == "enum"@,
        n.kind@ == "type_item"@ ==> node_types(n, module, file)[0].type_kind == "type_alias"@,
{
    reveal_strlit("struct_item");
    reveal_strlit("enum_item");
    reveal_strlit("trait_item");
    reveal_strlit("type_item");
    assert("struct_item"@.len() == 11);
    assert("enum_item"@.len() == 9);
    assert("trait_item"@.len() == 10);
    if n.kind@ == "trait_item"@ {
        assert(n.kind@ != "struct_item"@);
        assert(n.kind@ != "enum_item"@);
    }
    if n.kind@ == "enum_item"@ {
        assert(n.kind@ != "struct_item"@);
    }
    if n.kind@ == "type_item"@ {
        assert("type_item"@.len() == 9);
        assert(n.kind@ != "struct_item"@);
        assert(n.kind@ != "trait_item"@);
        assert(n.kind@[0] != "enum_item"@[0]);
        assert(n.kind@ != "enum_item"@);
    }
}

proof fn lemma_list_types_contains(ns: Seq<SyntaxNode>, module: Seq<char>, file: Seq<char>, i: int, j: int)
    requires
        0 <= i < ns.len(),
        0 <= j < node_types(ns[i], module, file).len(),
    ensures
        list_types(ns, module, file).contains(node_types(ns[i], module, file)[j]),
    decreases ns.len(),
{
    let l = list_types(ns.drop_last(), module, file);
    let last = node_types(ns.last(), module, file);
    if i == ns.len() - 1 {
        assert((l + last)[l.len() + j] == last[j]);
    } else {
        assert(ns.drop_last()[i] == ns[i]);
        lemma_list_types_contains(ns.drop_last(), module, file, i, j);
        let k = choose|k: int| 0 <= k < l.len() && l[k] == node_types(ns[i], module, file)[j];
        assert((l + last)[k] == l[k]);
    }
}

/// Outside type items and `mod` items (a source file, a block, an `impl`),
/// every type declared under a child is among the types of the node: the walk
/// reaches every child.
pub proof fn lemma_types_of_children_are_kept(n: SyntaxNode, module: Seq<char>, file: Seq<char>, i: int, j: int)
    requires
        !(n.kind@ == "struct_item"@ || n.kind@ == "enum_item"@ || n.kind@ == "trait_item"@
            || n.kind@ == "type_item"@ || n.kind@ == "mod_item"@),
        0 <= i < n.children@.len(),
        0 <= j < node_types(n.children@[i], module, file).len(),
    ensures
        node_types(n, module, file).contains(node_types(n.children@[i], module, file)[j]),
{
    lemma_list_types_contains(n.children@, module, file, i, j);
}

} // verus!
