//! From the symbols parsed out of a crate to the global index: what each
//! function, type and trait contributes, what a crate exports, how calls of
//! `Type::method` are resolved across crates, and the calls that framework
//! dispatchers make to trait methods.
use vstd::prelude::*;

use crate::global_index::CrateExports;
use crate::global_index::CrateFunctionInfo;
use crate::global_index::CrateTraitInfo;
use crate::global_index::CrateTypeInfo;
use crate::global_index::GlobalSymbolIndex;
use crate::global_index::TraitMethodInfo;
use crate::global_index::TypeKind;
use crate::global_index::Visibility;
use crate::global_index::associated_resolution;
use crate::global_index::convert_visibility;
use crate::global_index::deref_all;
use crate::global_index::exports_step;
use crate::global_index::ExportsChange;
use crate::table::NameTable;
use crate::text::chars_of;
use crate::text::contains_seq;
use crate::text::lemma_split_nonempty;
use crate::text::lemma_split_two;
use crate::text::split_chars;
use crate::text::split_seq;
use crate::text::starts_with;
use crate::text::str_contains;
use crate::text::str_eq;
use crate::text::str_starts_with;
use crate::text::string_from;
use crate::text::views;
use crate::workspace::CallType;
use crate::workspace::views_of;

verus! {

/// A function as the parser reports it, with what the index reads of it.
#[derive(Debug, Clone)]
pub struct ParsedFunction {
    pub id: String,
    pub name: String,
    pub qualified_name: String,
    pub crate_name: String,
    /// The module path of the function.
    pub module: String,
    pub file_path: String,
    pub line_start: usize,
    pub visibility: String,
    pub signature: String,
    pub is_async: bool,
    pub is_unsafe: bool,
    /// Whether one of its parameters is `self`.
    pub has_self_param: bool,
}

#[derive(Debug, Clone, Copy, PartialEq, Eq, Structural)]
pub enum ParsedTypeKind {
    Struct,
    Enum,
    Union,
    TypeAlias,
    Trait,
}

/// A type as the parser reports it.
#[derive(Debug, Clone)]
pub struct ParsedType {
    pub name: String,
    /// The module path of the type.
    pub module: String,
    pub kind: ParsedTypeKind,
    pub visibility: String,
    pub file_path: String,
    pub line_start: usize,
}

/// An `impl` block: the type, the trait if any, and its methods.
#[derive(Debug, Clone)]
pub struct ParsedImpl {
    pub type_ident: String,
    pub trait_name: Option<String>,
    pub methods: Vec<ParsedFunction>,
}

/// A call as the parser reports it.
#[derive(Debug, Clone)]
pub struct ParsedCall {
    pub caller_id: String,
    pub caller_module: String,
    pub callee_name: String,
    pub qualified_callee: Option<String>,
    pub call_type: CallType,
    pub line: usize,
    pub cross_crate: bool,
    pub from_crate: String,
    pub to_crate: Option<String>,
    pub file_path: String,
    pub is_synthetic: bool,
}

/// The symbols parsed out of one crate.
#[derive(Debug, Clone)]
pub struct ParsedSymbolSet {
    pub functions: Vec<ParsedFunction>,
    pub types: Vec<ParsedType>,
    pub impls: Vec<ParsedImpl>,
    pub calls: Vec<ParsedCall>,
}

/// The index's visibility for a declared visibility.
pub open spec fn index_visibility(v: Seq<char>) -> Visibility {
    if v == "pub"@ {
        Visibility::Public
    } else if v == "pub(crate)"@ {
        Visibility::Crate
    } else if v == "pub(super)"@ {
        Visibility::SuperScope
    } else {
        Visibility::Private
    }
}

/// The index's kind of a parsed type (traits are kept as structs).
pub open spec fn index_type_kind(k: ParsedTypeKind) -> TypeKind {
    match k {
        ParsedTypeKind::Struct => TypeKind::Struct,
        ParsedTypeKind::Enum => TypeKind::Enum,
        ParsedTypeKind::Union => TypeKind::Union,
        ParsedTypeKind::TypeAlias => TypeKind::Alias,
        ParsedTypeKind::Trait => TypeKind::Struct,
    }
}

/// Convert type kind enum to enum
pub fn convert_type_kind(kind: &ParsedTypeKind) -> (k: TypeKind)
    ensures
        k == index_type_kind(*kind),
{
    match kind {
        ParsedTypeKind::Struct => TypeKind::Struct,
        ParsedTypeKind::Enum => TypeKind::Enum,
        ParsedTypeKind::Union => TypeKind::Union,
        ParsedTypeKind::TypeAlias => TypeKind::Alias,
        ParsedTypeKind::Trait => TypeKind::Struct,
    }
}

/// The type a method belongs to: for a qualified name with `::` and a `self`
/// parameter, the segment before the last.
pub open spec fn associated_type_of(f: ParsedFunction) -> Option<Seq<char>> {
    if contains_seq(f.qualified_name@, "::"@) && f.has_self_param {
        let parts = split_seq(f.qualified_name@, "::"@);
        if parts.len() >= 2 {
            Some(parts[parts.len() - 2])
        } else {
            None
        }
    } else {
        None
    }
}

/// The views of an optional string.
pub open spec fn opt_str(o: Option<String>) -> Option<Seq<char>> {
    match o {
        Some(s) => Some(s@),
        None => None,
    }
}

/// `info` is what the index records of function `f` of crate `c`.
pub open spec fn function_info_of(info: CrateFunctionInfo, f: ParsedFunction, c: Seq<char>) -> bool {
    &&& info.name@ == f.name@
    &&& info.crate_name@ == c
    &&& views_of(info.module_names@) == seq![f.module@]
    &&& info.signature@ == f.signature@
    &&& info.visibility == index_visibility(f.visibility@)
    &&& info.is_async == f.is_async
    &&& info.is_unsafe == f.is_unsafe
    &&& !info.is_extern
    &&& opt_str(info.associated_type) == associated_type_of(f)
    &&& info.trait_impl is None
    &&& info.file_path@ == f.file_path@
    &&& info.line_number == Some(f.line_start as u32)
}

fn visibility_of(v: &str) -> (r: Visibility)
    ensures
        r == index_visibility(v@),
{
    convert_visibility(v)
}

/// Convert a parsed function to the index's record of it.
pub fn convert_to_crate_function_info(function: &ParsedFunction, crate_name: &str) -> (info: CrateFunctionInfo)
    ensures
        function_info_of(info, *function, crate_name@),
{
    let associated_type = if str_contains(function.qualified_name.as_str(), "::")
        && function.has_self_param {
        let q = chars_of(function.qualified_name.as_str());
        let sep = chars_of("::");
        proof {
            reveal_strlit("::");
        }
        let parts = split_chars(q.as_slice(), sep.as_slice());
        if parts.len() >= 2 {
            let p = &parts[parts.len() - 2];
            proof {
                assert(views(parts@)[parts@.len() - 2] == p@);
            }
            Some(string_from(p.as_slice()))
        } else {
            None
        }
    } else {
        None
    };
    let module_names = vec![function.module.clone()];
    assert(views_of(module_names@) =~= seq![function.module@]);
    CrateFunctionInfo {
        name: function.name.clone(),
        crate_name: String::from_str(crate_name),
        module_names,
        signature: function.signature.clone(),
        visibility: visibility_of(function.visibility.as_str()),
        is_async: function.is_async,
        is_unsafe: function.is_unsafe,
        is_extern: false,
        associated_type,
        trait_impl: None,
        file_path: function.file_path.clone(),
        line_number: Some(function.line_start as u32),
    }
}

/// The names of the functions of `fs` under the type `ty` (qualified as
/// `ty::...`) that take (`with_self`) or do not take `self`.
pub open spec fn members_of(fs: Seq<ParsedFunction>, ty: Seq<char>, with_self: bool) -> Seq<Seq<char>>
    decreases fs.len(),
{
    if fs.len() == 0 {
        Seq::empty()
    } else {
        let f = fs.last();
        let rest = members_of(fs.drop_last(), ty, with_self);
        if starts_with(f.qualified_name@, ty + "::"@) && f.has_self_param == with_self {
            rest.push(f.name@)
        } else {
            rest
        }
    }
}

/// The traits that `impl` blocks of `is` implement for the type `ty`.
pub open spec fn traits_implemented(is: Seq<ParsedImpl>, ty: Seq<char>) -> Seq<Seq<char>>
    decreases is.len(),
{
    if is.len() == 0 {
        Seq::empty()
    } else {
        let b = is.last();
        let rest = traits_implemented(is.drop_last(), ty);
        if b.type_ident@ == ty && b.trait_name is Some {
            rest.push(b.trait_name->0@)
        } else {
            rest
        }
    }
}

fn members_exec(fs: &Vec<ParsedFunction>, ty: &str, with_self: bool) -> (r: Vec<String>)
    ensures
        views_of(r@) == members_of(fs@, ty@, with_self),
{
    let prefix = String::from_str(ty).concat("::");
    let mut r: Vec<String> = Vec::new();
    let mut i: usize = 0;
    while i < fs.len()
        invariant
            i <= fs@.len(),
            prefix@ == ty@ + "::"@,
            views_of(r@) == members_of(fs@.take(i as int), ty@, with_self),
        decreases fs@.len() - i,
    {
        let f = &fs[i];
        proof {
            assert(fs@.take(i + 1).drop_last() =~= fs@.take(i as int));
            assert(fs@.take(i + 1).last() == *f);
        }
        if str_starts_with(f.qualified_name.as_str(), prefix.as_str()) && f.has_self_param
            == with_self {
            let ghost before = views_of(r@);
            r.push(f.name.clone());
            assert(views_of(r@) =~= before.push(f.name@));
        }
        i = i + 1;
    }
    assert(fs@.take(fs@.len() as int) =~= fs@);
    r
}

fn traits_exec(is: &Vec<ParsedImpl>, ty: &str) -> (r: Vec<String>)
    ensures
        views_of(r@) == traits_implemented(is@, ty@),
{
    let mut r: Vec<String> = Vec::new();
    let mut i: usize = 0;
    while i < is.len()
        invariant
            i <= is@.len(),
            views_of(r@) == traits_implemented(is@.take(i as int), ty@),
        decreases is@.len() - i,
    {
        let b = &is[i];
        proof {
            assert(is@.take(i + 1).drop_last() =~= is@.take(i as int));
            assert(is@.take(i + 1).last() == *b);
        }
        if str_eq(b.type_ident.as_str(), ty) {
            match &b.trait_name {
                Some(t) => {
                    let ghost before = views_of(r@);
                    r.push(t.clone());
                    assert(views_of(r@) =~= before.push(t@));
                },
                None => {},
            }
        }
        i = i + 1;
    }
    assert(is@.take(is@.len() as int) =~= is@);
    r
}

/// `info` is what the index records of type `t` of crate `c`, whose symbols
/// are `parsed`: its methods (members taking `self`), associated functions
/// (members without `self`) and the traits implemented for it.
pub open spec fn type_info_of(info: CrateTypeInfo, t: ParsedType, c: Seq<char>, parsed: ParsedSymbolSet) -> bool {
    &&& info.name@ == t.name@
    &&& info.crate_name@ == c
    &&& views_of(info.module_names@) == seq![t.module@]
    &&& info.type_kind == index_type_kind(t.kind)
    &&& info.visibility == index_visibility(t.visibility@)
    &&& views_of(info.methods@) == members_of(parsed.functions@, t.name@, true)
    &&& views_of(info.associated_functions@) == members_of(parsed.functions@, t.name@, false)
    &&& views_of(info.trait_impls@) == traits_implemented(parsed.impls@, t.name@)
    &&& info.generic_params@.len() == 0
    &&& info.file_path@ == t.file_path@
    &&& info.line_number == Some(t.line_start as u32)
}

/// Convert a parsed type to the index's record of it: its methods (members
/// taking `self`), associated functions (members without `self`) and the
/// traits implemented for it.
pub fn convert_to_crate_type_info(rust_type: &ParsedType, crate_name: &str, parsed: &ParsedSymbolSet) -> (info: CrateTypeInfo)
    ensures
        type_info_of(info, *rust_type, crate_name@, *parsed),
{
    let module_names = vec![rust_type.module.clone()];
    assert(views_of(module_names@) =~= seq![rust_type.module@]);
    CrateTypeInfo {
        name: rust_type.name.clone(),
        crate_name: String::from_str(crate_name),
        module_names,
        type_kind: convert_type_kind(&rust_type.kind),
        visibility: visibility_of(rust_type.visibility.as_str()),
        methods: members_exec(&parsed.functions, rust_type.name.as_str(), true),
        associated_functions: members_exec(&parsed.functions, rust_type.name.as_str(), false),
        trait_impls: traits_exec(&parsed.impls, rust_type.name.as_str()),
        generic_params: Vec::new(),
        file_path: rust_type.file_path.clone(),
        line_number: Some(rust_type.line_start as u32),
    }
}

/// The methods of the `impl` blocks of `is` that implement trait `tr`, in
/// order.
pub open spec fn trait_methods(is: Seq<ParsedImpl>, tr: Seq<char>) -> Seq<ParsedFunction>
    decreases is.len(),
{
    if is.len() == 0 {
        Seq::empty()
    } else {
        let b = is.last();
        let rest = trait_methods(is.drop_last(), tr);
        if b.trait_name is Some && b.trait_name->0@ == tr {
            rest + b.methods@
        } else {
            rest
        }
    }
}

/// `m` is the index's record of the trait method `f`.
pub open spec fn method_info_of(m: TraitMethodInfo, f: ParsedFunction) -> bool {
    &&& m.name@ == f.name@
    &&& m.signature@ == f.signature@
    &&& m.is_async == f.is_async
    &&& m.is_unsafe == f.is_unsafe
    &&& !m.has_default_impl
}

fn method_info(f: &ParsedFunction) -> (m: TraitMethodInfo)
    ensures
        method_info_of(m, *f),
{
    TraitMethodInfo {
        name: f.name.clone(),
        signature: f.signature.clone(),
        is_async: f.is_async,
        is_unsafe: f.is_unsafe,
        has_default_impl: false,
    }
}

/// `info` is what the index records of trait `t` of crate `c`, whose symbols
/// are `parsed`: its methods are those of the `impl` blocks that implement it.
pub open spec fn trait_info_of(info: CrateTraitInfo, t: ParsedType, c: Seq<char>, parsed: ParsedSymbolSet) -> bool {
    &&& info.name@ == t.name@
    &&& info.crate_name@ == c
    &&& views_of(info.module_names@) == seq![t.module@]
    &&& info.visibility == index_visibility(t.visibility@)
    &&& info.methods@.len() == trait_methods(parsed.impls@, t.name@).len()
    &&& forall|k: int|
        0 <= k < info.methods@.len() ==> method_info_of(
            #[trigger] info.methods@[k],
            trait_methods(parsed.impls@, t.name@)[k],
        )
    &&& info.associated_types@.len() == 0
    &&& info.super_traits@.len() == 0
    &&& info.generic_params@.len() == 0
    &&& info.file_path@ == t.file_path@
    &&& info.line_number == Some(t.line_start as u32)
}

/// Convert a parsed trait to the index's record of it: its methods are those of
/// the `impl` blocks that implement it.
pub fn convert_to_crate_trait_info(trait_def: &ParsedType, crate_name: &str, parsed: &ParsedSymbolSet) -> (info: CrateTraitInfo)
    ensures
        trait_info_of(info, *trait_def, crate_name@, *parsed),
{
    let ghost tr = trait_def.name@;
    let mut methods: Vec<TraitMethodInfo> = Vec::new();
    let mut i: usize = 0;
    while i < parsed.impls.len()
        invariant
            i <= parsed.impls@.len(),
            tr == trait_def.name@,
            methods@.len() == trait_methods(parsed.impls@.take(i as int), tr).len(),
            forall|k: int|
                0 <= k < methods@.len() ==> method_info_of(
                    #[trigger] methods@[k],
                    trait_methods(parsed.impls@.take(i as int), tr)[k],
                ),
        decreases parsed.impls@.len() - i,
    {
        let b = &parsed.impls[i];
        let ghost before = trait_methods(parsed.impls@.take(i as int), tr);
        proof {
            assert(parsed.impls@.take(i + 1).drop_last() =~= parsed.impls@.take(i as int));
            assert(parsed.impls@.take(i + 1).last() == *b);
        }
        let implements = match &b.trait_name {
            Some(t) => str_eq(t.as_str(), trait_def.name.as_str()),
            None => false,
        };
        if implements {
            let mut j: usize = 0;
            while j < b.methods.len()
                invariant
                    j <= b.methods@.len(),
                    methods@.len() == before.len() + j,
                    forall|k: int|
                        0 <= k < methods@.len() ==> method_info_of(
                            #[trigger] methods@[k],
                            (before + b.methods@)[k],
                        ),
                decreases b.methods@.len() - j,
            {
                methods.push(method_info(&b.methods[j]));
                j = j + 1;
            }
        }
        i = i + 1;
    }
    assert(parsed.impls@.take(parsed.impls@.len() as int) =~= parsed.impls@);
    let module_names = vec![trait_def.module.clone()];
    assert(views_of(module_names@) =~= seq![trait_def.module@]);
    CrateTraitInfo {
        name: trait_def.name.clone(),
        crate_name: String::from_str(crate_name),
        module_names,
        visibility: visibility_of(trait_def.visibility.as_str()),
        methods,
        associated_types: Vec::new(),
        super_traits: Vec::new(),
        generic_params: Vec::new(),
        file_path: trait_def.file_path.clone(),
        line_number: Some(trait_def.line_start as u32),
    }
}

/// The names of the `pub` functions of `fs`.
pub open spec fn public_function_names(fs: Seq<ParsedFunction>) -> Seq<Seq<char>>
    decreases fs.len(),
{
    if fs.len() == 0 {
        Seq::empty()
    } else if fs.last().visibility@ == "pub"@ {
        public_function_names(fs.drop_last()).push(fs.last().name@)
    } else {
        public_function_names(fs.drop_last())
    }
}

/// The names of the `pub` types of `ts` (only traits when `traits_only`).
pub open spec fn public_type_names(ts: Seq<ParsedType>, traits_only: bool) -> Seq<Seq<char>>
    decreases ts.len(),
{
    if ts.len() == 0 {
        Seq::empty()
    } else if ts.last().visibility@ == "pub"@ && (!traits_only || ts.last().kind
        == ParsedTypeKind::Trait) {
        public_type_names(ts.drop_last(), traits_only).push(ts.last().name@)
    } else {
        public_type_names(ts.drop_last(), traits_only)
    }
}

/// `e` is what crate `c`, whose symbols are `parsed`, exports: its `pub`
/// functions, types and traits; no re-exports or glob exports.
pub open spec fn exports_of(e: CrateExports, c: Seq<char>, parsed: ParsedSymbolSet) -> bool {
    &&& e.crate_name@ == c
    &&& views_of(e.public_functions@) == public_function_names(parsed.functions@)
    &&& views_of(e.public_types@) == public_type_names(parsed.types@, false)
    &&& views_of(e.public_traits@) == public_type_names(parsed.types@, true)
    &&& e.re_exports@.dom().len() == 0
    &&& e.glob_exports@.len() == 0
}

/// Build crate exports information: its `pub` functions, types and traits; no
/// re-exports or glob exports.
pub fn build_crate_exports(crate_name: &str, parsed: &ParsedSymbolSet) -> (e: CrateExports)
    ensures
        exports_of(e, crate_name@, *parsed),
{
    let mut public_functions: Vec<String> = Vec::new();
    let mut i: usize = 0;
    while i < parsed.functions.len()
        invariant
            i <= parsed.functions@.len(),
            views_of(public_functions@) == public_function_names(
                parsed.functions@.take(i as int),
            ),
        decreases parsed.functions@.len() - i,
    {
        let f = &parsed.functions[i];
        proof {
            assert(parsed.functions@.take(i + 1).drop_last() =~= parsed.functions@.take(i as int));
            assert(parsed.functions@.take(i + 1).last() == *f);
        }
        if str_eq(f.visibility.as_str(), "pub") {
            let ghost before = views_of(public_functions@);
            public_functions.push(f.name.clone());
            assert(views_of(public_functions@) =~= before.push(f.name@));
        }
        i = i + 1;
    }
    assert(parsed.functions@.take(parsed.functions@.len() as int) =~= parsed.functions@);
    let mut public_types: Vec<String> = Vec::new();
    let mut public_traits: Vec<String> = Vec::new();
    let mut i: usize = 0;
    while i < parsed.types.len()
        invariant
            i <= parsed.types@.len(),
            views_of(public_types@) == public_type_names(parsed.types@.take(i as int), false),
            views_of(public_traits@) == public_type_names(parsed.types@.take(i as int), true),
        decreases parsed.types@.len() - i,
    {
        let t = &parsed.types[i];
        proof {
            assert(parsed.types@.take(i + 1).drop_last() =~= parsed.types@.take(i as int));
            assert(parsed.types@.take(i + 1).last() == *t);
        }
        if str_eq(t.visibility.as_str(), "pub") {
            let ghost before = views_of(public_types@);
            public_types.push(t.name.clone());
            assert(views_of(public_types@) =~= before.push(t.name@));
            if t.kind == ParsedTypeKind::Trait {
                let ghost before_t = views_of(public_traits@);
                public_traits.push(t.name.clone());
                assert(views_of(public_traits@) =~= before_t.push(t.name@));
            }
        }
        i = i + 1;
    }
    assert(parsed.types@.take(parsed.types@.len() as int) =~= parsed.types@);
    let re_exports: NameTable<String> = NameTable::new();
    CrateExports {
        crate_name: String::from_str(crate_name),
        public_functions,
        public_types,
        public_traits,
        re_exports,
        glob_exports: Vec::new(),
    }
}

/// Number of traits among `ts`.
pub open spec fn trait_count_of(ts: Seq<ParsedType>) -> int
    decreases ts.len(),
{
    if ts.len() == 0 {
        0
    } else {
        trait_count_of(ts.drop_last()) + if ts.last().kind == ParsedTypeKind::Trait {
            1int
        } else {
            0int
        }
    }
}

/// The functions of `fs` named `n`, in order.
pub open spec fn functions_with_name(fs: Seq<ParsedFunction>, n: Seq<char>) -> Seq<ParsedFunction>
    decreases fs.len(),
{
    if fs.len() == 0 {
        Seq::empty()
    } else {
        let rest = functions_with_name(fs.drop_last(), n);
        if fs.last().name@ == n {
            rest.push(fs.last())
        } else {
            rest
        }
    }
}

/// The types of `ts` named `n` (only traits when `traits_only`), in order.
pub open spec fn types_with_name(ts: Seq<ParsedType>, n: Seq<char>, traits_only: bool) -> Seq<ParsedType>
    decreases ts.len(),
{
    if ts.len() == 0 {
        Seq::empty()
    } else {
        let rest = types_with_name(ts.drop_last(), n, traits_only);
        if ts.last().name@ == n && (!traits_only || ts.last().kind == ParsedTypeKind::Trait) {
            rest.push(ts.last())
        } else {
            rest
        }
    }
}

/// `now` is `before` followed by the index's record of each function of
/// `added` of crate `c`, in order.
pub open spec fn functions_appended(
    before: Seq<CrateFunctionInfo>,
    now: Seq<CrateFunctionInfo>,
    added: Seq<ParsedFunction>,
    c: Seq<char>,
) -> bool {
    &&& now.len() == before.len() + added.len()
    &&& forall|k: int| 0 <= k < before.len() ==> #[trigger] now[k] == before[k]
    &&& forall|k: int|
        before.len() <= k < now.len() ==> function_info_of(
            #[trigger] now[k],
            added[k - before.len()],
            c,
        )
}

/// `now` is `before` followed by the index's record of each type of `added`
/// of crate `c`, whose symbols are `parsed`, in order.
pub open spec fn types_appended(
    before: Seq<CrateTypeInfo>,
    now: Seq<CrateTypeInfo>,
    added: Seq<ParsedType>,
    c: Seq<char>,
    parsed: ParsedSymbolSet,
) -> bool {
    &&& now.len() == before.len() + added.len()
    &&& forall|k: int| 0 <= k < before.len() ==> #[trigger] now[k] == before[k]
    &&& forall|k: int|
        before.len() <= k < now.len() ==> type_info_of(
            #[trigger] now[k],
            added[k - before.len()],
            c,
            parsed,
        )
}

/// `now` is `before` followed by the index's record of each trait of `added`
/// of crate `c`, whose symbols are `parsed`, in order.
pub open spec fn traits_appended(
    before: Seq<CrateTraitInfo>,
    now: Seq<CrateTraitInfo>,
    added: Seq<ParsedType>,
    c: Seq<char>,
    parsed: ParsedSymbolSet,
) -> bool {
    &&& now.len() == before.len() + added.len()
    &&& forall|k: int| 0 <= k < before.len() ==> #[trigger] now[k] == before[k]
    &&& forall|k: int|
        before.len() <= k < now.len() ==> trait_info_of(
            #[trigger] now[k],
            added[k - before.len()],
            c,
            parsed,
        )
}

proof fn lemma_functions_appended_push(
    before: Seq<CrateFunctionInfo>,
    now: Seq<CrateFunctionInfo>,
    added: Seq<ParsedFunction>,
    c: Seq<char>,
    info: CrateFunctionInfo,
    f: ParsedFunction,
)
    requires
        functions_appended(before, now, added, c),
        function_info_of(info, f, c),
    ensures
        functions_appended(before, now.push(info), added.push(f), c),
{
    let now2 = now.push(info);
    assert forall|k: int| before.len() <= k < now2.len() implies function_info_of(
        #[trigger] now2[k],
        added.push(f)[k - before.len()],
        c,
    ) by {
        if k < now.len() {
            assert(now2[k] == now[k]);
        }
    }
}

proof fn lemma_types_appended_push(
    before: Seq<CrateTypeInfo>,
    now: Seq<CrateTypeInfo>,
    added: Seq<ParsedType>,
    c: Seq<char>,
    parsed: ParsedSymbolSet,
    info: CrateTypeInfo,
    t: ParsedType,
)
    requires
        types_appended(before, now, added, c, parsed),
        type_info_of(info, t, c, parsed),
    ensures
        types_appended(before, now.push(info), added.push(t), c, parsed),
{
    let now2 = now.push(info);
    assert forall|k: int| before.len() <= k < now2.len() implies type_info_of(
        #[trigger] now2[k],
        added.push(t)[k - before.len()],
        c,
        parsed,
    ) by {
        if k < now.len() {
            assert(now2[k] == now[k]);
        }
    }
}

proof fn lemma_traits_appended_push(
    before: Seq<CrateTraitInfo>,
    now: Seq<CrateTraitInfo>,
    added: Seq<ParsedType>,
    c: Seq<char>,
    parsed: ParsedSymbolSet,
    info: CrateTraitInfo,
    t: ParsedType,
)
    requires
        traits_appended(before, now, added, c, parsed),
        trait_info_of(info, t, c, parsed),
    ensures
        traits_appended(before, now.push(info), added.push(t), c, parsed),
{
    let now2 = now.push(info);
    assert forall|k: int| before.len() <= k < now2.len() implies trait_info_of(
        #[trigger] now2[k],
        added.push(t)[k - before.len()],
        c,
        parsed,
    ) by {
        if k < now.len() {
            assert(now2[k] == now[k]);
        }
    }
}

impl GlobalSymbolIndex {
    /// Adds what one crate's parsed symbols contribute: under each name, the
    /// index's record of every function and every type of that name, and of
    /// every trait of that name, after what was there; and the crate's exports,
    /// in place of any recorded before.
    #[verifier::rlimit(50)]
    pub fn index_crate_symbols(&mut self, crate_name: &str, parsed: &ParsedSymbolSet)
        ensures
            forall|n: Seq<char>|
                #![trigger final(self).functions_named(n)]
                functions_appended(
                    old(self).functions_named(n),
                    final(self).functions_named(n),
                    functions_with_name(parsed.functions@, n),
                    crate_name@,
                ),
            forall|n: Seq<char>|
                #![trigger final(self).types_named(n)]
                types_appended(
                    old(self).types_named(n),
                    final(self).types_named(n),
                    types_with_name(parsed.types@, n, false),
                    crate_name@,
                    *parsed,
                ),
            forall|n: Seq<char>|
                #![trigger final(self).traits_named(n)]
                traits_appended(
                    old(self).traits_named(n),
                    final(self).traits_named(n),
                    types_with_name(parsed.types@, n, true),
                    crate_name@,
                    *parsed,
                ),
            final(self).crate_exports@ == old(self).crate_exports@.insert(
                crate_name@,
                final(self).crate_exports@[crate_name@],
            ),
            exports_of(final(self).crate_exports@[crate_name@], crate_name@, *parsed),
            final(self).crate_exports@ == exports_step(
                old(self).crate_exports@,
                ExportsChange::Record(final(self).crate_exports@[crate_name@]),
            ),
            final(self).function_count() == old(self).function_count() + parsed.functions@.len(),
            final(self).type_count() == old(self).type_count() + parsed.types@.len(),
            final(self).trait_count() == old(self).trait_count() + trait_count_of(parsed.types@),
            final(self).functions@.dom() == old(self).functions@.dom() + parsed.functions@.map_values(
                |f: ParsedFunction| f.name@,
            ).to_set(),
            final(self).types@.dom() == old(self).types@.dom() + parsed.types@.map_values(
                |t: ParsedType| t.name@,
            ).to_set(),
            final(self).workspace_root == old(self).workspace_root,
    {
        let ghost f0 = self.functions@.dom();
        let mut i: usize = 0;
        proof {
            assert forall|n: Seq<char>| #![trigger self.functions_named(n)] functions_appended(
                old(self).functions_named(n),
                self.functions_named(n),
                functions_with_name(parsed.functions@.take(0), n),
                crate_name@,
            ) by {
                assert(functions_with_name(parsed.functions@.take(0), n) =~= Seq::<ParsedFunction>::empty());
            }
        }
        while i < parsed.functions.len()
            invariant
                i <= parsed.functions@.len(),
                self.function_count() == old(self).function_count() + i,
                self.functions@.dom() == f0 + parsed.functions@.take(i as int).map_values(
                    |f: ParsedFunction| f.name@,
                ).to_set(),
                f0 == old(self).functions@.dom(),
                forall|n: Seq<char>|
                    #![trigger self.functions_named(n)]
                    functions_appended(
                        old(self).functions_named(n),
                        self.functions_named(n),
                        functions_with_name(parsed.functions@.take(i as int), n),
                        crate_name@,
                    ),
                self.types == old(self).types,
                self.traits == old(self).traits,
                self.crate_exports == old(self).crate_exports,
                self.workspace_root == old(self).workspace_root,
            decreases parsed.functions@.len() - i,
        {
            let info = convert_to_crate_function_info(&parsed.functions[i], crate_name);
            let ghost prev = *self;
            self.add_function(info);
            proof {
                let f = parsed.functions@[i as int];
                let t1 = parsed.functions@.take(i + 1);
                assert(t1.drop_last() =~= parsed.functions@.take(i as int));
                assert(t1.last() == f);
                assert forall|n: Seq<char>| #![trigger self.functions_named(n)] functions_appended(
                    old(self).functions_named(n),
                    self.functions_named(n),
                    functions_with_name(t1, n),
                    crate_name@,
                ) by {
                    assert(functions_appended(
                        old(self).functions_named(n),
                        prev.functions_named(n),
                        functions_with_name(parsed.functions@.take(i as int), n),
                        crate_name@,
                    ));
                    if n == f.name@ {
                        lemma_functions_appended_push(
                            old(self).functions_named(n),
                            prev.functions_named(n),
                            functions_with_name(parsed.functions@.take(i as int), n),
                            crate_name@,
                            info,
                            f,
                        );
                    }
                }
                let s1 = parsed.functions@.take(i as int).map_values(|f: ParsedFunction| f.name@);
                let s2 = parsed.functions@.take(i + 1).map_values(|f: ParsedFunction| f.name@);
                assert(s2 =~= s1.push(parsed.functions@[i as int].name@));
                s1.lemma_push_to_set_commute(parsed.functions@[i as int].name@);
                assert(f0 + s2.to_set() =~= (f0 + s1.to_set()).insert(
                    parsed.functions@[i as int].name@,
                ));
            }
            i = i + 1;
        }
        assert(parsed.functions@.take(parsed.functions@.len() as int) =~= parsed.functions@);
        let ghost after_functions = *self;
        let ghost t0 = self.types@.dom();
        let mut i: usize = 0;
        proof {
            assert forall|n: Seq<char>| #![trigger self.types_named(n)] types_appended(
                old(self).types_named(n),
                self.types_named(n),
                types_with_name(parsed.types@.take(0), n, false),
                crate_name@,
                *parsed,
            ) by {
                assert(types_with_name(parsed.types@.take(0), n, false) =~= Seq::<ParsedType>::empty());
            }
        }
        while i < parsed.types.len()
            invariant
                i <= parsed.types@.len(),
                self.type_count() == old(self).type_count() + i,
                self.types@.dom() == t0 + parsed.types@.take(i as int).map_values(
                    |t: ParsedType| t.name@,
                ).to_set(),
                t0 == old(self).types@.dom(),
                forall|n: Seq<char>|
                    #![trigger self.types_named(n)]
                    types_appended(
                        old(self).types_named(n),
                        self.types_named(n),
                        types_with_name(parsed.types@.take(i as int), n, false),
                        crate_name@,
                        *parsed,
                    ),
                self.functions == after_functions.functions,
                self.traits == old(self).traits,
                self.crate_exports == old(self).crate_exports,
                self.workspace_root == old(self).workspace_root,
            decreases parsed.types@.len() - i,
        {
            let info = convert_to_crate_type_info(&parsed.types[i], crate_name, parsed);
            let ghost prev = *self;
            self.add_type(info);
            proof {
                let t = parsed.types@[i as int];
                let t1 = parsed.types@.take(i + 1);
                assert(t1.drop_last() =~= parsed.types@.take(i as int));
                assert(t1.last() == t);
                assert forall|n: Seq<char>| #![trigger self.types_named(n)] types_appended(
                    old(self).types_named(n),
                    self.types_named(n),
                    types_with_name(t1, n, false),
                    crate_name@,
                    *parsed,
                ) by {
                    assert(types_appended(
                        old(self).types_named(n),
                        prev.types_named(n),
                        types_with_name(parsed.types@.take(i as int), n, false),
                        crate_name@,
                        *parsed,
                    ));
                    if n == t.name@ {
                        lemma_types_appended_push(
                            old(self).types_named(n),
                            prev.types_named(n),
                            types_with_name(parsed.types@.take(i as int), n, false),
                            crate_name@,
                            *parsed,
                            info,
                            t,
                        );
                    }
                }
                let s1 = parsed.types@.take(i as int).map_values(|t: ParsedType| t.name@);
                let s2 = parsed.types@.take(i + 1).map_values(|t: ParsedType| t.name@);
                assert(s2 =~= s1.push(parsed.types@[i as int].name@));
                s1.lemma_push_to_set_commute(parsed.types@[i as int].name@);
                assert(t0 + s2.to_set() =~= (t0 + s1.to_set()).insert(parsed.types@[i as int].name@));
            }
            i = i + 1;
        }
        assert(parsed.types@.take(parsed.types@.len() as int) =~= parsed.types@);
        let ghost after_types = *self;
        let mut i: usize = 0;
        proof {
            assert forall|n: Seq<char>| #![trigger self.traits_named(n)] traits_appended(
                old(self).traits_named(n),
                self.traits_named(n),
                types_with_name(parsed.types@.take(0), n, true),
                crate_name@,
                *parsed,
            ) by {
                assert(types_with_name(parsed.types@.take(0), n, true) =~= Seq::<ParsedType>::empty());
            }
        }
        while i < parsed.types.len()
            invariant
                i <= parsed.types@.len(),
                self.trait_count() == old(self).trait_count() + trait_count_of(
                    parsed.types@.take(i as int),
                ),
                forall|n: Seq<char>|
                    #![trigger self.traits_named(n)]
                    traits_appended(
                        old(self).traits_named(n),
                        self.traits_named(n),
                        types_with_name(parsed.types@.take(i as int), n, true),
                        crate_name@,
                        *parsed,
                    ),
                self.functions == after_types.functions,
                self.types == after_types.types,
                self.crate_exports == old(self).crate_exports,
                self.workspace_root == old(self).workspace_root,
            decreases parsed.types@.len() - i,
        {
            let t = &parsed.types[i];
            let ghost prev = *self;
            proof {
                assert(parsed.types@.take(i + 1).drop_last() =~= parsed.types@.take(i as int));
                assert(parsed.types@.take(i + 1).last() == *t);
            }
            if t.kind == ParsedTypeKind::Trait {
                let info = convert_to_crate_trait_info(t, crate_name, parsed);
                self.add_trait(info);
                proof {
                    assert forall|n: Seq<char>| #![trigger self.traits_named(n)] traits_appended(
                        old(self).traits_named(n),
                        self.traits_named(n),
                        types_with_name(parsed.types@.take(i + 1), n, true),
                        crate_name@,
                        *parsed,
                    ) by {
                        assert(traits_appended(
                            old(self).traits_named(n),
                            prev.traits_named(n),
                            types_with_name(parsed.types@.take(i as int), n, true),
                            crate_name@,
                            *parsed,
                        ));
                        if n == t.name@ {
                            lemma_traits_appended_push(
                                old(self).traits_named(n),
                                prev.traits_named(n),
                                types_with_name(parsed.types@.take(i as int), n, true),
                                crate_name@,
                                *parsed,
                                info,
                                *t,
                            );
                        }
                    }
                }
            } else {
                proof {
                    assert forall|n: Seq<char>| #![trigger self.traits_named(n)] traits_appended(
                        old(self).traits_named(n),
                        self.traits_named(n),
                        types_with_name(parsed.types@.take(i + 1), n, true),
                        crate_name@,
                        *parsed,
                    ) by {
                        assert(traits_appended(
                            old(self).traits_named(n),
                            prev.traits_named(n),
                            types_with_name(parsed.types@.take(i as int), n, true),
                            crate_name@,
                            *parsed,
                        ));
                    }
                }
            }
            i = i + 1;
        }
        assert(parsed.types@.take(parsed.types@.len() as int) =~= parsed.types@);
        let ghost after_traits = *self;
        let exports = build_crate_exports(crate_name, parsed);
        self.add_crate_exports(exports);
        proof {
            assert forall|n: Seq<char>| #![trigger self.traits_named(n)] traits_appended(
                old(self).traits_named(n),
                self.traits_named(n),
                types_with_name(parsed.types@, n, true),
                crate_name@,
                *parsed,
            ) by {
                assert(self.traits_named(n) == after_traits.traits_named(n));
            }
            assert forall|n: Seq<char>| #![trigger self.functions_named(n)] functions_appended(
                old(self).functions_named(n),
                self.functions_named(n),
                functions_with_name(parsed.functions@, n),
                crate_name@,
            ) by {
                assert(self.functions_named(n) == after_functions.functions_named(n));
            }
            assert forall|n: Seq<char>| #![trigger self.types_named(n)] types_appended(
                old(self).types_named(n),
                self.types_named(n),
                types_with_name(parsed.types@, n, false),
                crate_name@,
                *parsed,
            ) by {
                assert(self.types_named(n) == after_types.types_named(n));
            }
        }
    }
}

/// The type and method that a qualified callee names: its last two segments.
pub open spec fn type_and_method(q: Seq<char>) -> (Seq<char>, Seq<char>) {
    let parts = split_seq(q, "::"@);
    (parts[parts.len() - 2], parts[parts.len() - 1])
}

/// A call that cross-crate resolution looks at: its callee is qualified with
/// `::` and its target crate is not known yet.
pub open spec fn awaits_crate(c: ParsedCall) -> bool {
    c.qualified_callee is Some && contains_seq(c.qualified_callee->0@, "::"@) && c.to_crate is None
}

/// The call awaits its crate and its `Type::method` resolves against `index`.
pub open spec fn resolves_across(index: GlobalSymbolIndex, c: ParsedCall) -> bool {
    awaits_crate(c) && associated_resolution(
        index.types_named(type_and_method(c.qualified_callee->0@).0),
        index.functions_named(type_and_method(c.qualified_callee->0@).1),
        type_and_method(c.qualified_callee->0@).1,
    ).len() > 0
}

/// Number of calls of `cs` that cross-crate resolution against `index` resolves.
pub open spec fn resolvable_count(index: GlobalSymbolIndex, cs: Seq<ParsedCall>) -> int
    decreases cs.len(),
{
    if cs.len() == 0 {
        0
    } else {
        resolvable_count(index, cs.drop_last()) + if resolves_across(index, cs.last()) {
            1int
        } else {
            0int
        }
    }
}

/// `new` is `old` after cross-crate resolution against `index`: a call that
/// awaits its crate and whose `Type::method` resolves gets the crate of the
/// first function found and becomes cross-crate; other calls stay as they are.
pub open spec fn cross_crate_resolved(index: GlobalSymbolIndex, old: ParsedCall, new: ParsedCall) -> bool {
    if resolves_across(index, old) {
        let first = associated_resolution(
            index.types_named(type_and_method(old.qualified_callee->0@).0),
            index.functions_named(type_and_method(old.qualified_callee->0@).1),
            type_and_method(old.qualified_callee->0@).1,
        )[0];
        &&& new.to_crate is Some
        &&& new.to_crate->0@ == first.crate_name@
        &&& new.cross_crate
        &&& new.caller_id == old.caller_id
        &&& new.caller_module == old.caller_module
        &&& new.callee_name == old.callee_name
        &&& new.qualified_callee == old.qualified_callee
        &&& new.call_type == old.call_type
        &&& new.line == old.line
        &&& new.from_crate == old.from_crate
        &&& new.file_path == old.file_path
        &&& new.is_synthetic == old.is_synthetic
    } else {
        new == old
    }
}

/// Resolves `Type::method` calls whose target crate is unknown through the
/// global index; gives how many were resolved.
pub fn apply_cross_crate_resolution(index: &GlobalSymbolIndex, calls: &mut Vec<ParsedCall>) -> (resolved: usize)
    ensures
        final(calls)@.len() == old(calls)@.len(),
        forall|i: int|
            0 <= i < old(calls)@.len() ==> cross_crate_resolved(
                *index,
                old(calls)@[i],
                #[trigger] final(calls)@[i],
            ),
        resolved == resolvable_count(*index, old(calls)@),
{
    let mut resolved: usize = 0;
    let mut i: usize = 0;
    let sep = chars_of("::");
    proof {
        reveal_strlit("::");
        assert(sep@.len() == 2);
    }
    while i < calls.len()
        invariant
            i <= calls@.len(),
            calls@.len() == old(calls)@.len(),
            resolved <= i,
            resolved == resolvable_count(*index, old(calls)@.take(i as int)),
            sep@ == "::"@,
            sep@.len() == 2,
            forall|j: int|
                0 <= j < i ==> cross_crate_resolved(*index, old(calls)@[j], #[trigger] calls@[j]),
            forall|j: int| i <= j < calls@.len() ==> calls@[j] == old(calls)@[j],
        decreases calls@.len() - i,
    {
        proof {
            let t1 = old(calls)@.take(i + 1);
            assert(t1.drop_last() =~= old(calls)@.take(i as int));
            assert(t1.last() == old(calls)@[i as int]);
        }
        let mut target: Option<(String, String)> = None;
        match &calls[i].qualified_callee {
            Some(q) => {
                if str_contains(q.as_str(), "::") && calls[i].to_crate.is_none() {
                    let qc = chars_of(q.as_str());
                    let parts = split_chars(qc.as_slice(), sep.as_slice());
                    proof {
                        reveal_strlit("::");
                        lemma_split_two(q@, "::"@);
                    }
                    if parts.len() >= 2 {
                        let ty = string_from(parts[parts.len() - 2].as_slice());
                        let m = string_from(parts[parts.len() - 1].as_slice());
                        proof {
                            assert(views(parts@)[parts@.len() - 2] == parts@[parts@.len() - 2]@);
                            assert(views(parts@)[parts@.len() - 1] == parts@[parts@.len() - 1]@);
                        }
                        target = Some((ty, m));
                    }
                }
            },
            None => {},
        }
        match target {
            Some((ty, m)) => {
                let found = index.resolve_associated_function(ty.as_str(), m.as_str());
                if found.len() > 0 {
                    let krate = found[0].crate_name.clone();
                    proof {
                        assert(deref_all(found@)[0] == *found[0]);
                    }
                    let c = &calls[i];
                    let call = ParsedCall {
                        caller_id: c.caller_id.clone(),
                        caller_module: c.caller_module.clone(),
                        callee_name: c.callee_name.clone(),
                        qualified_callee: match &c.qualified_callee {
                            Some(q) => Some(q.clone()),
                            None => None,
                        },
                        call_type: c.call_type,
                        line: c.line,
                        cross_crate: true,
                        from_crate: c.from_crate.clone(),
                        to_crate: Some(krate),
                        file_path: c.file_path.clone(),
                        is_synthetic: c.is_synthetic,
                    };
                    calls.set(i, call);
                    resolved = resolved + 1;
                }
            },
            None => {},
        }
        i = i + 1;
    }
    assert(old(calls)@.take(old(calls)@.len() as int) =~= old(calls)@);
    resolved
}

/// The file declares an implementation of `WebSocketActor`, or the function's
/// path names it.
pub open spec fn websocket_actor_implementation(content: Seq<char>, qualified: Seq<char>) -> bool {
    contains_seq(content, "impl WebSocketActor"@) || (contains_seq(content, "impl<"@)
        && contains_seq(content, "WebSocketActor"@)) || contains_seq(qualified, "WebSocketActor"@)
}

/// The file starts an actor.
pub open spec fn actor_spawn_pattern(content: Seq<char>) -> bool {
    contains_seq(content, ".start()"@) || contains_seq(content, "Actor::start"@) || contains_seq(
        content,
        "actor.start"@,
    )
}

/// Check if file content contains WebSocketActor trait implementation
pub fn is_websocket_actor_implementation(file_content: &str, qualified_name: &str) -> (b: bool)
    ensures
        b == websocket_actor_implementation(file_content@, qualified_name@),
{
    str_contains(file_content, "impl WebSocketActor") || str_contains(file_content, "impl<")
        && str_contains(file_content, "WebSocketActor") || str_contains(
        qualified_name,
        "WebSocketActor",
    )
}

/// Check if file content contains actor spawn patterns
pub fn contains_actor_spawn_pattern(file_content: &str) -> (b: bool)
    ensures
        b == actor_spawn_pattern(file_content@),
{
    str_contains(file_content, ".start()") || str_contains(file_content, "Actor::start")
        || str_contains(file_content, "actor.start")
}

/// The framework function that calls trait methods on the program's behalf.
#[derive(Debug, Clone, Copy, PartialEq, Eq, Structural)]
pub enum FrameworkDispatcher {
    /// Dispatches the messages of WebSocket actors.
    WebSocket,
    /// Runs the lifecycle methods of Actix actors.
    ActixLifecycle,
}

/// The dispatchers that call function `f` of a file with content `content`:
/// WebSocket actor methods `event_stream` and `handle_message`, and Actix
/// lifecycle methods `started`, `stopping` and `stopped` in a file that starts
/// an actor.
pub open spec fn dispatchers_of(f: ParsedFunction, content: Option<Seq<char>>) -> Seq<FrameworkDispatcher> {
    match content {
        None => Seq::empty(),
        Some(c) => (if websocket_actor_implementation(c, f.qualified_name@) && (f.name@
            == "event_stream"@ || f.name@ == "handle_message"@) {
            seq![FrameworkDispatcher::WebSocket]
        } else {
            Seq::empty()
        }) + (if actor_spawn_pattern(c) && (f.name@ == "started"@ || f.name@ == "stopping"@
            || f.name@ == "stopped"@) {
            seq![FrameworkDispatcher::ActixLifecycle]
        } else {
            Seq::empty()
        }),
    }
}

/// For each function in order, the dispatchers that call it.
pub open spec fn synthetic_plan(fs: Seq<ParsedFunction>, cs: Seq<Option<Seq<char>>>) -> Seq<
    (ParsedFunction, FrameworkDispatcher),
>
    decreases fs.len(),
{
    if fs.len() == 0 || cs.len() != fs.len() {
        Seq::empty()
    } else {
        synthetic_plan(fs.drop_last(), cs.drop_last()) + dispatchers_of(fs.last(), cs.last()).map_values(
            |d: FrameworkDispatcher| (fs.last(), d),
        )
    }
}

/// The id of a dispatcher's synthetic function.
pub open spec fn dispatcher_id(d: FrameworkDispatcher) -> Seq<char> {
    match d {
        FrameworkDispatcher::WebSocket => "websocket_framework_dispatch"@,
        FrameworkDispatcher::ActixLifecycle => "actix_framework_lifecycle"@,
    }
}

/// The crate and module of a dispatcher's synthetic function.
pub open spec fn dispatcher_crate(d: FrameworkDispatcher) -> Seq<char> {
    match d {
        FrameworkDispatcher::WebSocket => "websocket_framework"@,
        FrameworkDispatcher::ActixLifecycle => "actix_framework"@,
    }
}

/// `c` is the synthetic call by which dispatcher `d` reaches `f`.
pub open spec fn synthetic_call_for(c: ParsedCall, f: ParsedFunction, d: FrameworkDispatcher) -> bool {
    &&& c.caller_id@ == dispatcher_id(d)
    &&& c.caller_module@ == dispatcher_crate(d)
    &&& c.callee_name@ == f.name@
    &&& c.qualified_callee is Some && c.qualified_callee->0@ == f.qualified_name@
    &&& c.call_type == CallType::Method
    &&& c.line == f.line_start
    &&& c.cross_crate
    &&& c.from_crate@ == dispatcher_crate(d)
    &&& c.to_crate is Some && c.to_crate->0@ == f.crate_name@
    &&& c.file_path@ == f.file_path@
    &&& c.is_synthetic
}

fn synthetic_call(f: &ParsedFunction, d: FrameworkDispatcher) -> (c: ParsedCall)
    ensures
        synthetic_call_for(c, *f, d),
{
    let (id, krate) = match d {
        FrameworkDispatcher::WebSocket => ("websocket_framework_dispatch", "websocket_framework"),
        FrameworkDispatcher::ActixLifecycle => ("actix_framework_lifecycle", "actix_framework"),
    };
    ParsedCall {
        caller_id: String::from_str(id),
        caller_module: String::from_str(krate),
        callee_name: f.name.clone(),
        qualified_callee: Some(f.qualified_name.clone()),
        call_type: CallType::Method,
        line: f.line_start,
        cross_crate: true,
        from_crate: String::from_str(krate),
        to_crate: Some(f.crate_name.clone()),
        file_path: f.file_path.clone(),
        is_synthetic: true,
    }
}

/// The optional contents as character sequences.
pub open spec fn contents_view(cs: Seq<Option<String>>) -> Seq<Option<Seq<char>>> {
    cs.map_values(|o: Option<String>| opt_str(o))
}

/// The calls that framework dispatchers make to the functions, given the
/// content of each function's file (`None` when it could not be read).
pub fn synthetic_framework_calls(functions: &[ParsedFunction], contents: &[Option<String>]) -> (r: Vec<
    ParsedCall,
>)
    requires
        contents@.len() == functions@.len(),
    ensures
        r@.len() == synthetic_plan(functions@, contents_view(contents@)).len(),
        forall|k: int|
            0 <= k < r@.len() ==> synthetic_call_for(
                #[trigger] r@[k],
                synthetic_plan(functions@, contents_view(contents@))[k].0,
                synthetic_plan(functions@, contents_view(contents@))[k].1,
            ),
{
    let ghost cv = contents_view(contents@);
    let mut r: Vec<ParsedCall> = Vec::new();
    let mut i: usize = 0;
    while i < functions.len()
        invariant
            i <= functions@.len(),
            contents@.len() == functions@.len(),
            cv == contents_view(contents@),
            r@.len() == synthetic_plan(functions@.take(i as int), cv.take(i as int)).len(),
            forall|k: int|
                0 <= k < r@.len() ==> synthetic_call_for(
                    #[trigger] r@[k],
                    synthetic_plan(functions@.take(i as int), cv.take(i as int))[k].0,
                    synthetic_plan(functions@.take(i as int), cv.take(i as int))[k].1,
                ),
        decreases functions@.len() - i,
    {
        let f = &functions[i];
        let ghost before = synthetic_plan(functions@.take(i as int), cv.take(i as int));
        let ghost after = synthetic_plan(functions@.take(i + 1), cv.take(i + 1));
        proof {
            assert(functions@.take(i + 1).drop_last() =~= functions@.take(i as int));
            assert(cv.take(i + 1).drop_last() =~= cv.take(i as int));
            assert(functions@.take(i + 1).last() == *f);
            assert(cv.take(i + 1).last() == cv[i as int]);
            assert(cv[i as int] == opt_str(contents@[i as int]));
        }
        let ghost ds = dispatchers_of(*f, cv[i as int]);
        let ghost r0 = r@;
        match &contents[i] {
            Some(content) => {
                if is_websocket_actor_implementation(content.as_str(), f.qualified_name.as_str())
                    && (str_eq(f.name.as_str(), "event_stream") || str_eq(
                    f.name.as_str(),
                    "handle_message",
                )) {
                    r.push(synthetic_call(f, FrameworkDispatcher::WebSocket));
                }
                if contains_actor_spawn_pattern(content.as_str()) && (str_eq(
                    f.name.as_str(),
                    "started",
                ) || str_eq(f.name.as_str(), "stopping") || str_eq(f.name.as_str(), "stopped")) {
                    r.push(synthetic_call(f, FrameworkDispatcher::ActixLifecycle));
                }
            },
            None => {},
        }
        proof {
            assert(after =~= before + ds.map_values(|d: FrameworkDispatcher| (*f, d)));
            assert(r@.len() == r0.len() + ds.len());
            assert forall|k: int| 0 <= k < r@.len() implies synthetic_call_for(
                #[trigger] r@[k],
                after[k].0,
                after[k].1,
            ) by {
                if k < r0.len() {
                    assert(r@[k] == r0[k]);
                    assert(after[k] == before[k]);
                } else {
                    assert(after[k] == (*f, ds[k - r0.len()]));
                }
            }
        }
        i = i + 1;
    }
    proof {
        assert(functions@.take(functions@.len() as int) =~= functions@);
        assert(cv.take(cv.len() as int) =~= cv);
    }
    r
}

/// `f` is the synthetic function of dispatcher `d`.
pub open spec fn is_dispatch_function(f: ParsedFunction, d: FrameworkDispatcher) -> bool {
    &&& f.id@ == dispatcher_id(d)
    &&& f.name@ == (match d {
        FrameworkDispatcher::WebSocket => "websocket_dispatch"@,
        FrameworkDispatcher::ActixLifecycle => "lifecycle_dispatch"@,
    })
    &&& f.qualified_name@ == dispatcher_crate(d) + "::"@ + f.name@
    &&& f.crate_name@ == dispatcher_crate(d)
    &&& f.module@ == dispatcher_crate(d)
    &&& f.file_path@ == "<synthetic>"@
    &&& f.line_start == 0
    &&& f.visibility@ == "pub"@
    &&& f.is_async == (d == FrameworkDispatcher::WebSocket)
    &&& !f.is_unsafe
    &&& f.signature@ == (match d {
        FrameworkDispatcher::WebSocket => "async fn websocket_dispatch()"@,
        FrameworkDispatcher::ActixLifecycle => "fn lifecycle_dispatch()"@,
    })
    &&& !f.has_self_param
}

/// The synthetic functions of the WebSocket and Actix dispatchers.
pub fn framework_dispatch_functions() -> (r: Vec<ParsedFunction>)
    ensures
        r@.len() == 2,
        is_dispatch_function(r@[0], FrameworkDispatcher::WebSocket),
        is_dispatch_function(r@[1], FrameworkDispatcher::ActixLifecycle),
{
    let ws = ParsedFunction {
        id: String::from_str("websocket_framework_dispatch"),
        name: String::from_str("websocket_dispatch"),
        qualified_name: String::from_str("websocket_framework").concat("::").concat(
            "websocket_dispatch",
        ),
        crate_name: String::from_str("websocket_framework"),
        module: String::from_str("websocket_framework"),
        file_path: String::from_str("<synthetic>"),
        line_start: 0,
        visibility: String::from_str("pub"),
        signature: String::from_str("async fn websocket_dispatch()"),
        is_async: true,
        is_unsafe: false,
        has_self_param: false,
    };
    let actix = ParsedFunction {
        id: String::from_str("actix_framework_lifecycle"),
        name: String::from_str("lifecycle_dispatch"),
        qualified_name: String::from_str("actix_framework").concat("::").concat(
            "lifecycle_dispatch",
        ),
        crate_name: String::from_str("actix_framework"),
        module: String::from_str("actix_framework"),
        file_path: String::from_str("<synthetic>"),
        line_start: 0,
        visibility: String::from_str("pub"),
        signature: String::from_str("fn lifecycle_dispatch()"),
        is_async: false,
        is_unsafe: false,
        has_self_param: false,
    };
    vec![ws, actix]
}

/// Applies framework knowledge to a crate's symbols: when enabled, the calls
/// that framework dispatchers make are added to the calls, and the
/// dispatchers' synthetic functions to the functions; gives how many calls were
/// added.
pub fn apply_framework_knowledge(
    enabled: bool,
    parsed: &mut ParsedSymbolSet,
    contents: &[Option<String>],
) -> (added: usize)
    requires
        contents@.len() == old(parsed).functions@.len(),
    ensures
        !enabled ==> *final(parsed) == *old(parsed) && added == 0,
        enabled ==> {
            let plan = synthetic_plan(old(parsed).functions@, contents_view(contents@));
            &&& added == plan.len()
            &&& final(parsed).calls@.len() == old(parsed).calls@.len() + plan.len()
            &&& final(parsed).calls@.take(old(parsed).calls@.len() as int) == old(parsed).calls@
            &&& forall|k: int|
                0 <= k < plan.len() ==> synthetic_call_for(
                    #[trigger] final(parsed).calls@[old(parsed).calls@.len() + k],
                    plan[k].0,
                    plan[k].1,
                )
            &&& final(parsed).functions@.len() == old(parsed).functions@.len() + 2
            &&& final(parsed).functions@.take(old(parsed).functions@.len() as int) == old(
                parsed,
            ).functions@
            &&& is_dispatch_function(
                final(parsed).functions@[old(parsed).functions@.len() as int],
                FrameworkDispatcher::WebSocket,
            )
            &&& is_dispatch_function(
                final(parsed).functions@[old(parsed).functions@.len() + 1int],
                FrameworkDispatcher::ActixLifecycle,
            )
            &&& final(parsed).types == old(parsed).types
            &&& final(parsed).impls == old(parsed).impls
        },
{
    if !enabled {
        return 0;
    }
    let mut synthetic = synthetic_framework_calls(parsed.functions.as_slice(), contents);
    let added = synthetic.len();
    let mut dispatchers = framework_dispatch_functions();
    let ghost (c0, s0, f0, d0) = (parsed.calls@, synthetic@, parsed.functions@, dispatchers@);
    parsed.calls.append(&mut synthetic);
    parsed.functions.append(&mut dispatchers);
    proof {
        assert(parsed.calls@.take(c0.len() as int) =~= c0);
        assert(parsed.functions@.take(f0.len() as int) =~= f0);
        assert forall|k: int| 0 <= k < s0.len() implies #[trigger] parsed.calls@[c0.len() + k] == s0[k] by {}
    }
    added
}

} // verus!
