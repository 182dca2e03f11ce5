//! Global symbol index for cross-crate resolution: functions, types, traits and
//! crate exports, each looked up by name.
use vstd::prelude::*;

use crate::table::NameTable;
use crate::table::key_index;
use crate::table::lemma_key_index;
use crate::text::chars_eq;
use crate::text::chars_of;
use crate::text::str_eq;
use crate::text::string_from;

verus! {

#[verifier::external_type_specification]
#[verifier::external_body]
pub struct ExSystemTime(std::time::SystemTime);

/// `SystemTime::now`: the current wall-clock time. Nothing is stated of the value,
/// which depends on the clock.
#[verifier::external_body]
pub(crate) fn current_time() -> std::time::SystemTime {
    std::time::SystemTime::now()
}

/// Information about a function in a crate for cross-crate resolution
#[derive(Debug, Clone)]
pub struct CrateFunctionInfo {
    pub name: String,
    pub crate_name: String,
    pub module_names: Vec<String>,
    pub signature: String,
    pub visibility: Visibility,
    pub is_async: bool,
    pub is_unsafe: bool,
    pub is_extern: bool,
    pub associated_type: Option<String>,
    pub trait_impl: Option<String>,
    pub file_path: String,
    pub line_number: Option<u32>,
}

/// Information about a type in a crate for cross-crate resolution
#[derive(Debug, Clone)]
pub struct CrateTypeInfo {
    pub name: String,
    pub crate_name: String,
    pub module_names: Vec<String>,
    pub type_kind: TypeKind,
    pub visibility: Visibility,
    pub methods: Vec<String>,
    pub associated_functions: Vec<String>,
    pub trait_impls: Vec<String>,
    pub generic_params: Vec<String>,
    pub file_path: String,
    pub line_number: Option<u32>,
}

/// Information about a trait in a crate for cross-crate resolution
#[derive(Debug, Clone)]
pub struct CrateTraitInfo {
    pub name: String,
    pub crate_name: String,
    pub module_names: Vec<String>,
    pub visibility: Visibility,
    pub methods: Vec<TraitMethodInfo>,
    pub associated_types: Vec<String>,
    pub super_traits: Vec<String>,
    pub generic_params: Vec<String>,
    pub file_path: String,
    pub line_number: Option<u32>,
}

#[derive(Debug, Clone)]
pub struct TraitMethodInfo {
    pub name: String,
    pub signature: String,
    pub is_async: bool,
    pub is_unsafe: bool,
    pub has_default_impl: bool,
}

#[derive(Debug, Clone, Copy, PartialEq, Eq, Structural)]
pub enum TypeKind {
    Struct,
    Enum,
    Union,
    Alias,
}

#[derive(Debug, Clone, Copy, PartialEq, Eq, Structural)]
pub enum Visibility {
    Public,
    Crate,
    SuperScope,
    Private,
}

/// Exports from a specific crate
#[derive(Debug, Clone)]
pub struct CrateExports {
    pub crate_name: String,
    pub public_functions: Vec<String>,
    pub public_types: Vec<String>,
    pub public_traits: Vec<String>,
    /// alias -> original
    pub re_exports: NameTable<String>,
    /// module paths with glob exports
    pub glob_exports: Vec<String>,
}

/// Global symbol index for cross-crate resolution
#[derive(Debug)]
pub struct GlobalSymbolIndex {
    pub functions: NameTable<Vec<CrateFunctionInfo>>,
    pub types: NameTable<Vec<CrateTypeInfo>>,
    pub traits: NameTable<Vec<CrateTraitInfo>>,
    pub crate_exports: NameTable<CrateExports>,
    pub last_updated: std::time::SystemTime,
    pub workspace_root: String,
}

#[derive(Debug)]
pub struct IndexStats {
    pub total_functions: usize,
    pub total_types: usize,
    pub total_traits: usize,
    pub total_crates: usize,
    pub unique_function_names: usize,
    pub unique_type_names: usize,
    pub unique_trait_names: usize,
}

/// Sum of the lengths of the lists held in a table's entries.
pub open spec fn total_len<T>(s: Seq<(Seq<char>, Vec<T>)>) -> int
    decreases s.len(),
{
    if s.len() == 0 {
        0
    } else {
        total_len(s.drop_last()) + s.last().1@.len()
    }
}

proof fn lemma_total_len_nonneg<T>(s: Seq<(Seq<char>, Vec<T>)>)
    ensures
        total_len(s) >= 0,
    decreases s.len(),
{
    if s.len() > 0 {
        lemma_total_len_nonneg(s.drop_last());
    }
}

proof fn lemma_total_len_update<T>(s: Seq<(Seq<char>, Vec<T>)>, i: int, e: (Seq<char>, Vec<T>))
    requires
        0 <= i < s.len(),
    ensures
        total_len(s.update(i, e)) == total_len(s) - s[i].1@.len() + e.1@.len(),
    decreases s.len(),
{
    let t = s.update(i, e);
    if i == s.len() - 1 {
        assert(t.drop_last() =~= s.drop_last());
    } else {
        assert(t.drop_last() =~= s.drop_last().update(i, e));
        lemma_total_len_update(s.drop_last(), i, e);
    }
}

proof fn lemma_total_len_push<T>(s: Seq<(Seq<char>, Vec<T>)>, e: (Seq<char>, Vec<T>))
    ensures
        total_len(s.push(e)) == total_len(s) + e.1@.len(),
{
    assert(s.push(e).drop_last() =~= s);
}

/// The list stored under `name`, or the empty list.
pub open spec fn list_or_empty<T>(m: Map<Seq<char>, Vec<T>>, name: Seq<char>) -> Seq<T> {
    if m.contains_key(name) {
        m[name]@
    } else {
        Seq::empty()
    }
}

/// `ty` lists `method` among its associated functions.
pub open spec fn has_associated_function(ty: CrateTypeInfo, method: Seq<char>) -> bool {
    exists|j: int|
        0 <= j < ty.associated_functions@.len() && #[trigger] ty.associated_functions@[j]@
            == method
}

/// `f` is an associated function of the type `ty`, in the same crate.
pub open spec fn is_associated_with(f: CrateFunctionInfo, ty: CrateTypeInfo) -> bool {
    &&& f.associated_type is Some
    &&& f.associated_type->0@ == ty.name@
    &&& f.crate_name@ == ty.crate_name@
}

/// The functions of `funcs` that are associated functions of `ty`, in order.
pub open spec fn associated_functions_of(
    funcs: Seq<CrateFunctionInfo>,
    ty: CrateTypeInfo,
) -> Seq<CrateFunctionInfo>
    decreases funcs.len(),
{
    if funcs.len() == 0 {
        Seq::empty()
    } else if is_associated_with(funcs.last(), ty) {
        associated_functions_of(funcs.drop_last(), ty).push(funcs.last())
    } else {
        associated_functions_of(funcs.drop_last(), ty)
    }
}

/// For each type in `types` that lists `method`, the functions of `funcs`
/// associated with it, concatenated in order.
pub open spec fn associated_resolution(
    types: Seq<CrateTypeInfo>,
    funcs: Seq<CrateFunctionInfo>,
    method: Seq<char>,
) -> Seq<CrateFunctionInfo>
    decreases types.len(),
{
    if types.len() == 0 {
        Seq::empty()
    } else {
        associated_resolution(types.drop_last(), funcs, method) + if has_associated_function(
            types.last(),
            method,
        ) {
            associated_functions_of(funcs, types.last())
        } else {
            Seq::empty()
        }
    }
}

/// The trait `tr` declares a method named `method`.
pub open spec fn declares_method(tr: CrateTraitInfo, method: Seq<char>) -> bool {
    exists|j: int| 0 <= j < tr.methods@.len() && #[trigger] tr.methods@[j].name@ == method
}

/// `f` implements a method of the trait `tr`.
pub open spec fn implements_trait(f: CrateFunctionInfo, tr: CrateTraitInfo) -> bool {
    f.trait_impl is Some && f.trait_impl->0@ == tr.name@
}

/// The functions of `funcs` that implement the trait `tr`, in order.
pub open spec fn trait_implementations(
    funcs: Seq<CrateFunctionInfo>,
    tr: CrateTraitInfo,
) -> Seq<CrateFunctionInfo>
    decreases funcs.len(),
{
    if funcs.len() == 0 {
        Seq::empty()
    } else if implements_trait(funcs.last(), tr) {
        trait_implementations(funcs.drop_last(), tr).push(funcs.last())
    } else {
        trait_implementations(funcs.drop_last(), tr)
    }
}

/// For each trait in `traits` declaring `method`, its implementations among `funcs`.
pub open spec fn trait_resolution(
    traits: Seq<CrateTraitInfo>,
    funcs: Seq<CrateFunctionInfo>,
    method: Seq<char>,
) -> Seq<CrateFunctionInfo>
    decreases traits.len(),
{
    if traits.len() == 0 {
        Seq::empty()
    } else {
        trait_resolution(traits.drop_last(), funcs, method) + if declares_method(
            traits.last(),
            method,
        ) {
            trait_implementations(funcs, traits.last())
        } else {
            Seq::empty()
        }
    }
}

/// The values behind a list of references.
pub open spec fn deref_all<T>(s: Seq<&T>) -> Seq<T> {
    s.map_values(|x: &T| *x)
}

/// Appends `path` to `base` as `Path::join` does for a relative or absolute
/// component on Unix.
pub open spec fn path_join(base: Seq<char>, comp: Seq<char>) -> Seq<char> {
    if comp.len() > 0 && comp[0] == '/' {
        comp
    } else if base.len() == 0 || base.last() == '/' {
        base + comp
    } else {
        base + seq!['/'] + comp
    }
}

/// `Path::join` on the string form of a path.
pub fn join_path(base: &str, comp: &str) -> (r: String)
    ensures
        r@ == path_join(base@, comp@),
{
    let b = chars_of(base);
    let c = chars_of(comp);
    let mut v: Vec<char> = Vec::new();
    if c.len() > 0 && c[0] == '/' {
        return string_from(c.as_slice());
    }
    let mut i: usize = 0;
    while i < b.len()
        invariant
            i <= b@.len(),
            v@ == b@.take(i as int),
        decreases b@.len() - i,
    {
        v.push(b[i]);
        assert(b@.take(i + 1) =~= b@.take(i as int).push(b@[i as int]));
        i = i + 1;
    }
    assert(b@.take(b@.len() as int) =~= b@);
    if b.len() > 0 && b[b.len() - 1] != '/' {
        v.push('/');
    }
    let ghost mid = v@;
    let mut j: usize = 0;
    while j < c.len()
        invariant
            j <= c@.len(),
            v@ == mid + c@.take(j as int),
        decreases c@.len() - j,
    {
        v.push(c[j]);
        assert(c@.take(j + 1) =~= c@.take(j as int).push(c@[j as int]));
        j = j + 1;
    }
    assert(c@.take(c@.len() as int) =~= c@);
    proof {
        if b@.len() > 0 && b@.last() != '/' {
            assert(mid =~= b@ + seq!['/']);
        } else {
            assert(mid =~= b@);
        }
    }
    string_from(v.as_slice())
}

fn option_string_eq(a: &Option<String>, b: &String) -> (r: bool)
    ensures
        r == (a is Some && a->0@ == b@),
{
    match a {
        Some(s) => str_eq(s.as_str(), b.as_str()),
        None => false,
    }
}

/// Whether the list holds a string equal to `s`.
pub fn list_contains_str(list: &Vec<String>, s: &str) -> (r: bool)
    ensures
        r == (exists|j: int| 0 <= j < list@.len() && #[trigger] list@[j]@ == s@),
{
    for j in 0..list.len()
        invariant
            forall|k: int| 0 <= k < j ==> list@[k]@ != s@,
    {
        if str_eq(list[j].as_str(), s) {
            return true;
        }
    }
    false
}

/// What one call that changes a global symbol index does to its table of
/// crate exports: leaves it as it is, records a crate's exports (in place of
/// any recorded for that crate), or empties it.
pub enum ExportsChange {
    Keep,
    Record(CrateExports),
    Clear,
}

/// The table of crate exports after one change.
pub open spec fn exports_step(
    m: Map<Seq<char>, CrateExports>,
    ch: ExportsChange,
) -> Map<Seq<char>, CrateExports> {
    match ch {
        ExportsChange::Keep => m,
        ExportsChange::Record(e) => m.insert(e.crate_name@, e),
        ExportsChange::Clear => Map::empty(),
    }
}

/// The table of crate exports after the changes `chs`, in order.
pub open spec fn exports_after(
    m: Map<Seq<char>, CrateExports>,
    chs: Seq<ExportsChange>,
) -> Map<Seq<char>, CrateExports>
    decreases chs.len(),
{
    if chs.len() == 0 {
        m
    } else {
        exports_step(exports_after(m, chs.drop_last()), chs.last())
    }
}

/// The change records exports for crate `c`.
pub open spec fn records_crate(ch: ExportsChange, c: Seq<char>) -> bool {
    match ch {
        ExportsChange::Record(e) => e.crate_name@ == c,
        _ => false,
    }
}

/// The change records exports for crate `c` or empties the table.
pub open spec fn overwrites_crate(ch: ExportsChange, c: Seq<char>) -> bool {
    records_crate(ch, c) || ch is Clear
}

/// Law: the exports recorded for a crate read back unchanged after any later
/// changes that neither record exports for that crate again nor empty the
/// table.
pub proof fn lemma_exports_read_back(
    m: Map<Seq<char>, CrateExports>,
    e: CrateExports,
    later: Seq<ExportsChange>,
)
    requires
        forall|k: int| 0 <= k < later.len() ==> !overwrites_crate(#[trigger] later[k], e.crate_name@),
    ensures
        exports_after(exports_step(m, ExportsChange::Record(e)), later).contains_key(e.crate_name@),
        exports_after(exports_step(m, ExportsChange::Record(e)), later)[e.crate_name@] == e,
    decreases later.len(),
{
    if later.len() > 0 {
        assert forall|k: int| 0 <= k < later.drop_last().len() implies !overwrites_crate(
            #[trigger] later.drop_last()[k],
            e.crate_name@,
        ) by {
            assert(later.drop_last()[k] == later[k]);
        }
        lemma_exports_read_back(m, e, later.drop_last());
        assert(!overwrites_crate(later[later.len() - 1], e.crate_name@));
    }
}

/// Law: from an empty table (a new index, or one just cleared), a crate for
/// which no later change records exports reads as absent.
pub proof fn lemma_exports_absent(later: Seq<ExportsChange>, c: Seq<char>)
    requires
        forall|k: int| 0 <= k < later.len() ==> !records_crate(#[trigger] later[k], c),
    ensures
        !exports_after(Map::<Seq<char>, CrateExports>::empty(), later).contains_key(c),
    decreases later.len(),
{
    if later.len() > 0 {
        assert forall|k: int| 0 <= k < later.drop_last().len() implies !records_crate(
            #[trigger] later.drop_last()[k],
            c,
        ) by {
            assert(later.drop_last()[k] == later[k]);
        }
        lemma_exports_absent(later.drop_last(), c);
        assert(!records_crate(later[later.len() - 1], c));
    }
}

/// A cache written at `cache_modified` is valid: the cache file exists and no
/// workspace manifest that exists was modified after it (times in signed
/// nanoseconds from the Unix epoch, `None` for a file that does not exist).
pub open spec fn cache_is_valid(cache_modified: Option<i128>, manifest_modified: Seq<Option<i128>>) -> bool {
    cache_modified is Some && forall|i: int|
        0 <= i < manifest_modified.len() && #[trigger] manifest_modified[i] is Some
            ==> manifest_modified[i]->0 <= cache_modified->0
}

impl GlobalSymbolIndex {
    /// All stored functions, counting every entry of every name.
    pub open spec fn function_count(self) -> int {
        total_len(self.functions.spec_entries())
    }

    pub open spec fn type_count(self) -> int {
        total_len(self.types.spec_entries())
    }

    pub open spec fn trait_count(self) -> int {
        total_len(self.traits.spec_entries())
    }

    /// The functions stored under `name`, in insertion order.
    pub open spec fn functions_named(self, name: Seq<char>) -> Seq<CrateFunctionInfo> {
        list_or_empty(self.functions@, name)
    }

    pub open spec fn types_named(self, name: Seq<char>) -> Seq<CrateTypeInfo> {
        list_or_empty(self.types@, name)
    }

    pub open spec fn traits_named(self, name: Seq<char>) -> Seq<CrateTraitInfo> {
        list_or_empty(self.traits@, name)
    }

    pub fn new(workspace_root: String) -> (index: Self)
        ensures
            index.functions@ == Map::<Seq<char>, Vec<CrateFunctionInfo>>::empty(),
            index.types@ == Map::<Seq<char>, Vec<CrateTypeInfo>>::empty(),
            index.traits@ == Map::<Seq<char>, Vec<CrateTraitInfo>>::empty(),
            index.crate_exports@ == Map::<Seq<char>, CrateExports>::empty(),
            index.function_count() == 0,
            index.type_count() == 0,
            index.trait_count() == 0,
            index.workspace_root@ == workspace_root@,
    {
        let index = Self {
            functions: NameTable::new(),
            types: NameTable::new(),
            traits: NameTable::new(),
            crate_exports: NameTable::new(),
            last_updated: current_time(),
            workspace_root,
        };
        index
    }

    /// Add function information to the index
    pub fn add_function(&mut self, func_info: CrateFunctionInfo)
        ensures
            final(self).functions@.dom() == old(self).functions@.dom().insert(func_info.name@),
            final(self).functions_named(func_info.name@) == old(self).functions_named(
                func_info.name@,
            ).push(func_info),
            forall|k: Seq<char>|
                k != func_info.name@ ==> #[trigger] final(self).functions_named(k) == old(
                    self,
                ).functions_named(k),
            final(self).function_count() == old(self).function_count() + 1,
            final(self).crate_exports@ == exports_step(
                old(self).crate_exports@,
                ExportsChange::Keep,
            ),
            final(self).types == old(self).types,
            final(self).traits == old(self).traits,
            final(self).crate_exports == old(self).crate_exports,
            final(self).workspace_root == old(self).workspace_root,
    {
        let name = func_info.name.clone();
        self.functions.check_wf();
        proof {
            lemma_key_index(self.functions.spec_entries(), name@);
        }
        self.functions.push_to(name, func_info);
        proof {
            let o = old(self).functions.spec_entries();
            let n = self.functions.spec_entries();
            if old(self).functions@.contains_key(name@) {
                lemma_total_len_update(o, key_index(o, name@), (name@, self.functions@[name@]));
            } else {
                lemma_total_len_push(o, (name@, self.functions@[name@]));
            }
        }
    }

    /// Add type information to the index
    pub fn add_type(&mut self, type_info: CrateTypeInfo)
        ensures
            final(self).types@.dom() == old(self).types@.dom().insert(type_info.name@),
            final(self).types_named(type_info.name@) == old(self).types_named(
                type_info.name@,
            ).push(type_info),
            forall|k: Seq<char>|
                k != type_info.name@ ==> #[trigger] final(self).types_named(k) == old(
                    self,
                ).types_named(k),
            final(self).type_count() == old(self).type_count() + 1,
            final(self).crate_exports@ == exports_step(
                old(self).crate_exports@,
                ExportsChange::Keep,
            ),
            final(self).functions == old(self).functions,
            final(self).traits == old(self).traits,
            final(self).crate_exports == old(self).crate_exports,
            final(self).workspace_root == old(self).workspace_root,
    {
        let name = type_info.name.clone();
        self.types.check_wf();
        proof {
            lemma_key_index(self.types.spec_entries(), name@);
        }
        self.types.push_to(name, type_info);
        proof {
            let o = old(self).types.spec_entries();
            if old(self).types@.contains_key(name@) {
                lemma_total_len_update(o, key_index(o, name@), (name@, self.types@[name@]));
            } else {
                lemma_total_len_push(o, (name@, self.types@[name@]));
            }
        }
    }

    /// Add trait information to the index
    pub fn add_trait(&mut self, trait_info: CrateTraitInfo)
        ensures
            final(self).traits@.dom() == old(self).traits@.dom().insert(trait_info.name@),
            final(self).traits_named(trait_info.name@) == old(self).traits_named(
                trait_info.name@,
            ).push(trait_info),
            forall|k: Seq<char>|
                k != trait_info.name@ ==> #[trigger] final(self).traits_named(k) == old(
                    self,
                ).traits_named(k),
            final(self).trait_count() == old(self).trait_count() + 1,
            final(self).crate_exports@ == exports_step(
                old(self).crate_exports@,
                ExportsChange::Keep,
            ),
            final(self).functions == old(self).functions,
            final(self).types == old(self).types,
            final(self).crate_exports == old(self).crate_exports,
            final(self).workspace_root == old(self).workspace_root,
    {
        let name = trait_info.name.clone();
        self.traits.check_wf();
        proof {
            lemma_key_index(self.traits.spec_entries(), name@);
        }
        self.traits.push_to(name, trait_info);
        proof {
            let o = old(self).traits.spec_entries();
            if old(self).traits@.contains_key(name@) {
                lemma_total_len_update(o, key_index(o, name@), (name@, self.traits@[name@]));
            } else {
                lemma_total_len_push(o, (name@, self.traits@[name@]));
            }
        }
    }

    /// Find function by name across all crates
    pub fn find_function(&self, name: &str) -> (r: Option<&Vec<CrateFunctionInfo>>)
        ensures
            match r {
                Some(list) => self.functions@.contains_key(name@) && *list == self.functions@[name@],
                None => !self.functions@.contains_key(name@),
            },
    {
        self.functions.get(name)
    }

    /// Find type by name across all crates
    pub fn find_type(&self, name: &str) -> (r: Option<&Vec<CrateTypeInfo>>)
        ensures
            match r {
                Some(list) => self.types@.contains_key(name@) && *list == self.types@[name@],
                None => !self.types@.contains_key(name@),
            },
    {
        self.types.get(name)
    }

    /// Find trait by name across all crates
    pub fn find_trait(&self, name: &str) -> (r: Option<&Vec<CrateTraitInfo>>)
        ensures
            match r {
                Some(list) => self.traits@.contains_key(name@) && *list == self.traits@[name@],
                None => !self.traits@.contains_key(name@),
            },
    {
        self.traits.get(name)
    }

    /// Find function in specific crate: the first function of that name whose
    /// crate is `crate_name`.
    pub fn find_function_in_crate(&self, name: &str, crate_name: &str) -> (r: Option<
        &CrateFunctionInfo,
    >)
        ensures
            match r {
                Some(f) => exists|i: int|
                    0 <= i < self.functions_named(name@).len() && self.functions_named(name@)[i]
                        == *f && f.crate_name@ == crate_name@ && forall|j: int|
                        0 <= j < i ==> #[trigger] self.functions_named(name@)[j].crate_name@
                            != crate_name@,
                None => forall|i: int|
                    0 <= i < self.functions_named(name@).len()
                        ==> #[trigger] self.functions_named(name@)[i].crate_name@ != crate_name@,
            },
    {
        match self.functions.get(name) {
            None => None,
            Some(list) => {
                for i in 0..list.len()
                    invariant
                        list@ == self.functions_named(name@),
                        forall|j: int| 0 <= j < i ==> #[trigger] list@[j].crate_name@ != crate_name@,
                {
                    if str_eq(list[i].crate_name.as_str(), crate_name) {
                        return Some(&list[i]);
                    }
                }
                None
            },
        }
    }

    /// Find type in specific crate
    pub fn find_type_in_crate(&self, name: &str, crate_name: &str) -> (r: Option<&CrateTypeInfo>)
        ensures
            match r {
                Some(t) => exists|i: int|
                    0 <= i < self.types_named(name@).len() && self.types_named(name@)[i] == *t
                        && t.crate_name@ == crate_name@ && forall|j: int|
                        0 <= j < i ==> #[trigger] self.types_named(name@)[j].crate_name@
                            != crate_name@,
                None => forall|i: int|
                    0 <= i < self.types_named(name@).len()
                        ==> #[trigger] self.types_named(name@)[i].crate_name@ != crate_name@,
            },
    {
        match self.types.get(name) {
            None => None,
            Some(list) => {
                for i in 0..list.len()
                    invariant
                        list@ == self.types_named(name@),
                        forall|j: int| 0 <= j < i ==> #[trigger] list@[j].crate_name@ != crate_name@,
                {
                    if str_eq(list[i].crate_name.as_str(), crate_name) {
                        return Some(&list[i]);
                    }
                }
                None
            },
        }
    }

    /// Find trait in specific crate
    pub fn find_trait_in_crate(&self, name: &str, crate_name: &str) -> (r: Option<&CrateTraitInfo>)
        ensures
            match r {
                Some(t) => exists|i: int|
                    0 <= i < self.traits_named(name@).len() && self.traits_named(name@)[i] == *t
                        && t.crate_name@ == crate_name@ && forall|j: int|
                        0 <= j < i ==> #[trigger] self.traits_named(name@)[j].crate_name@
                            != crate_name@,
                None => forall|i: int|
                    0 <= i < self.traits_named(name@).len()
                        ==> #[trigger] self.traits_named(name@)[i].crate_name@ != crate_name@,
            },
    {
        match self.traits.get(name) {
            None => None,
            Some(list) => {
                for i in 0..list.len()
                    invariant
                        list@ == self.traits_named(name@),
                        forall|j: int| 0 <= j < i ==> #[trigger] list@[j].crate_name@ != crate_name@,
                {
                    if str_eq(list[i].crate_name.as_str(), crate_name) {
                        return Some(&list[i]);
                    }
                }
                None
            },
        }
    }

    /// Resolve Type::method call across crates: for each type named `type_ident`
    /// that lists `method_name` as an associated function, the functions named
    /// `method_name` associated with that type in the type's crate.
    pub fn resolve_associated_function(&self, type_ident: &str, method_name: &str) -> (r: Vec<
        &CrateFunctionInfo,
    >)
        ensures
            deref_all(r@) == associated_resolution(
                self.types_named(type_ident@),
                self.functions_named(method_name@),
                method_name@,
            ),
    {
        let mut results: Vec<&CrateFunctionInfo> = Vec::new();
        let ghost funcs = self.functions_named(method_name@);
        if let Some(type_infos) = self.types.get(type_ident) {
            for t in 0..type_infos.len()
                invariant
                    type_infos@ == self.types_named(type_ident@),
                    funcs == self.functions_named(method_name@),
                    deref_all(results@) == associated_resolution(
                        type_infos@.take(t as int),
                        funcs,
                        method_name@,
                    ),
            {
                let type_info = &type_infos[t];
                assert(type_infos@.take(t + 1).drop_last() =~= type_infos@.take(t as int));
                let ghost before = deref_all(results@);
                if list_contains_str(&type_info.associated_functions, method_name) {
                    if let Some(func_infos) = self.functions.get(method_name) {
                        for f in 0..func_infos.len()
                            invariant
                                func_infos@ == funcs,
                                deref_all(results@) == before + associated_functions_of(
                                    funcs.take(f as int),
                                    *type_info,
                                ),
                        {
                            let func_info = &func_infos[f];
                            assert(funcs.take(f + 1).drop_last() =~= funcs.take(f as int));
                            let ghost prev = results@;
                            if option_string_eq(&func_info.associated_type, &type_info.name)
                                && str_eq(
                                func_info.crate_name.as_str(),
                                type_info.crate_name.as_str(),
                            ) {
                                results.push(func_info);
                                assert(deref_all(results@) =~= deref_all(prev).push(*func_info));
                            }
                        }
                        assert(funcs.take(funcs.len() as int) =~= funcs);
                    } else {
                        assert(funcs =~= Seq::<CrateFunctionInfo>::empty());
                        assert(associated_functions_of(funcs, *type_info) =~= Seq::<
                            CrateFunctionInfo,
                        >::empty());
                        assert(before + Seq::<CrateFunctionInfo>::empty() =~= before);
                    }
                } else {
                    assert(before + Seq::<CrateFunctionInfo>::empty() =~= before);
                }
            }
            assert(type_infos@.take(type_infos@.len() as int) =~= type_infos@);
        } else {
            assert(deref_all(results@) =~= Seq::<CrateFunctionInfo>::empty());
        }
        results
    }

    /// Resolve trait method calls through dynamic dispatch: for each trait named
    /// `trait_name` declaring `method_name`, the functions named `method_name`
    /// that implement that trait.
    pub fn resolve_trait_method(&self, trait_name: &str, method_name: &str) -> (r: Vec<
        &CrateFunctionInfo,
    >)
        ensures
            deref_all(r@) == trait_resolution(
                self.traits_named(trait_name@),
                self.functions_named(method_name@),
                method_name@,
            ),
    {
        let mut results: Vec<&CrateFunctionInfo> = Vec::new();
        let ghost funcs = self.functions_named(method_name@);
        if let Some(trait_infos) = self.traits.get(trait_name) {
            for t in 0..trait_infos.len()
                invariant
                    trait_infos@ == self.traits_named(trait_name@),
                    funcs == self.functions_named(method_name@),
                    deref_all(results@) == trait_resolution(
                        trait_infos@.take(t as int),
                        funcs,
                        method_name@,
                    ),
            {
                let trait_info = &trait_infos[t];
                assert(trait_infos@.take(t + 1).drop_last() =~= trait_infos@.take(t as int));
                let ghost before = deref_all(results@);
                let mut declares = false;
                for m in 0..trait_info.methods.len()
                    invariant
                        declares == (exists|j: int|
                            0 <= j < m && #[trigger] trait_info.methods@[j].name@
                                == method_name@),
                {
                    if str_eq(trait_info.methods[m].name.as_str(), method_name) {
                        declares = true;
                    }
                }
                if declares {
                    if let Some(func_infos) = self.functions.get(method_name) {
                        for f in 0..func_infos.len()
                            invariant
                                func_infos@ == funcs,
                                deref_all(results@) == before + trait_implementations(
                                    funcs.take(f as int),
                                    *trait_info,
                                ),
                        {
                            let func_info = &func_infos[f];
                            assert(funcs.take(f + 1).drop_last() =~= funcs.take(f as int));
                            let ghost prev = results@;
                            if option_string_eq(&func_info.trait_impl, &trait_info.name) {
                                results.push(func_info);
                                assert(deref_all(results@) =~= deref_all(prev).push(*func_info));
                            }
                        }
                        assert(funcs.take(funcs.len() as int) =~= funcs);
                    } else {
                        assert(funcs =~= Seq::<CrateFunctionInfo>::empty());
                        assert(trait_implementations(funcs, *trait_info) =~= Seq::<
                            CrateFunctionInfo,
                        >::empty());
                        assert(before + Seq::<CrateFunctionInfo>::empty() =~= before);
                    }
                } else {
                    assert(before + Seq::<CrateFunctionInfo>::empty() =~= before);
                }
            }
            assert(trait_infos@.take(trait_infos@.len() as int) =~= trait_infos@);
        } else {
            assert(deref_all(results@) =~= Seq::<CrateFunctionInfo>::empty());
        }
        results
    }

    /// Get crate exports for import resolution
    pub fn get_crate_exports(&self, crate_name: &str) -> (r: Option<&CrateExports>)
        ensures
            match r {
                Some(e) => self.crate_exports@.contains_key(crate_name@) && *e
                    == self.crate_exports@[crate_name@],
                None => !self.crate_exports@.contains_key(crate_name@),
            },
    {
        self.crate_exports.get(crate_name)
    }

    /// Add crate exports information, replacing what was recorded for that crate
    pub fn add_crate_exports(&mut self, exports: CrateExports)
        ensures
            final(self).crate_exports@ == old(self).crate_exports@.insert(
                exports.crate_name@,
                exports,
            ),
            final(self).crate_exports@ == exports_step(
                old(self).crate_exports@,
                ExportsChange::Record(exports),
            ),
            final(self).functions == old(self).functions,
            final(self).types == old(self).types,
            final(self).traits == old(self).traits,
            final(self).workspace_root == old(self).workspace_root,
    {
        let name = exports.crate_name.clone();
        self.crate_exports.insert(name, exports);
    }

    /// Clear all data (for rebuilding)
    pub fn clear(&mut self)
        ensures
            final(self).functions@ == Map::<Seq<char>, Vec<CrateFunctionInfo>>::empty(),
            final(self).types@ == Map::<Seq<char>, Vec<CrateTypeInfo>>::empty(),
            final(self).traits@ == Map::<Seq<char>, Vec<CrateTraitInfo>>::empty(),
            final(self).crate_exports@ == Map::<Seq<char>, CrateExports>::empty(),
            final(self).function_count() == 0,
            final(self).type_count() == 0,
            final(self).trait_count() == 0,
            final(self).workspace_root == old(self).workspace_root,
            final(self).crate_exports@ == exports_step(
                old(self).crate_exports@,
                ExportsChange::Clear,
            ),
    {
        self.functions.clear();
        self.types.clear();
        self.traits.clear();
        self.crate_exports.clear();
        self.last_updated = current_time();
    }

    /// Get statistics about the index
    pub fn stats(&self) -> (s: IndexStats)
        requires
            self.function_count() <= usize::MAX,
            self.type_count() <= usize::MAX,
            self.trait_count() <= usize::MAX,
        ensures
            s.total_functions == self.function_count(),
            s.total_types == self.type_count(),
            s.total_traits == self.trait_count(),
            s.total_crates == self.crate_exports@.dom().len(),
            s.unique_function_names == self.functions@.dom().len(),
            s.unique_type_names == self.types@.dom().len(),
            s.unique_trait_names == self.traits@.dom().len(),
    {
        let total_functions = sum_lengths(&self.functions);
        let total_types = sum_lengths(&self.types);
        let total_traits = sum_lengths(&self.traits);
        IndexStats {
            total_functions,
            total_types,
            total_traits,
            total_crates: self.crate_exports.len(),
            unique_function_names: self.functions.len(),
            unique_type_names: self.types.len(),
            unique_trait_names: self.traits.len(),
        }
    }

    /// Paths of the workspace manifest files whose change outdates a cache:
    /// `Cargo.toml` and `Cargo.lock` under the workspace root.
    pub fn manifest_paths(&self) -> (r: Vec<String>)
        ensures
            r@.len() == 2,
            r@[0]@ == path_join(self.workspace_root@, "Cargo.toml"@),
            r@[1]@ == path_join(self.workspace_root@, "Cargo.lock"@),
    {
        let mut r = Vec::new();
        r.push(join_path(self.workspace_root.as_str(), "Cargo.toml"));
        r.push(join_path(self.workspace_root.as_str(), "Cargo.lock"));
        r
    }

    /// Whether a cache written at `cache_modified` is still valid: the cache file
    /// exists and no workspace manifest that exists was modified after it.
    /// Times are given as signed nanoseconds from the Unix epoch; `None` stands
    /// for a file that does not exist.
    pub fn is_cache_valid(&self, cache_modified: Option<i128>, manifest_modified: &[Option<i128>]) -> (r: bool)
        ensures
            r == cache_is_valid(cache_modified, manifest_modified@),
    {
        match cache_modified {
            None => false,
            Some(cache_time) => {
                for i in 0..manifest_modified.len()
                    invariant
                        cache_modified == Some(cache_time),
                        forall|k: int|
                            0 <= k < i && #[trigger] manifest_modified@[k] is Some
                                ==> manifest_modified@[k]->0 <= cache_time,
                {
                    if let Some(t) = manifest_modified[i] {
                        if t > cache_time {
                            assert(manifest_modified@[i as int] is Some);
                            return false;
                        }
                    }
                }
                true
            },
        }
    }

    /// Get the default cache path for the workspace
    pub fn default_cache_path(&self) -> (r: String)
        ensures
            r@ == path_join(
                path_join(self.workspace_root@, "target"@),
                ".workspace-analyzer-cache.bin.gz"@,
            ),
    {
        let target = join_path(self.workspace_root.as_str(), "target");
        join_path(target.as_str(), ".workspace-analyzer-cache.bin.gz")
    }
}

/// Sum of the lengths of the lists in a table.
fn sum_lengths<T>(table: &NameTable<Vec<T>>) -> (n: usize)
    requires
        total_len(table.spec_entries()) <= usize::MAX,
    ensures
        n == total_len(table.spec_entries()),
{
    let len = table.len();
    let mut total: usize = 0;
    let ghost es = table.spec_entries();
    for i in 0..len
        invariant
            len == es.len(),
            es == table.spec_entries(),
            total == total_len(es.take(i as int)),
            total_len(es) <= usize::MAX,
    {
        let (_, list) = table.entry_at(i);
        assert(es.take(i + 1).drop_last() =~= es.take(i as int));
        proof {
            lemma_total_len_prefix(es, i + 1);
        }
        total = total + list.len();
    }
    assert(es.take(len as int) =~= es);
    total
}

proof fn lemma_total_len_prefix<T>(s: Seq<(Seq<char>, Vec<T>)>, n: int)
    requires
        0 <= n <= s.len(),
    ensures
        total_len(s.take(n)) <= total_len(s),
    decreases s.len() - n,
{
    if n < s.len() {
        lemma_total_len_prefix(s, n + 1);
        assert(s.take(n + 1).drop_last() =~= s.take(n));
    } else {
        assert(s.take(n) =~= s);
    }
}

/// Map a declared visibility (`pub`, `pub(crate)`, `pub(super)`, anything else) to
/// the index's visibility.
pub fn convert_visibility(visibility: &str) -> (v: Visibility)
    ensures
        v == (if visibility@ == "pub"@ {
            Visibility::Public
        } else if visibility@ == "pub(crate)"@ {
            Visibility::Crate
        } else if visibility@ == "pub(super)"@ {
            Visibility::SuperScope
        } else {
            Visibility::Private
        }),
{
    if str_eq(visibility, "pub") {
        Visibility::Public
    } else if str_eq(visibility, "pub(crate)") {
        Visibility::Crate
    } else if str_eq(visibility, "pub(super)") {
        Visibility::SuperScope
    } else {
        Visibility::Private
    }
}

/// A function added to the index is found again: it is the last of those
/// listed under its name, and a search for its name within its crate finds a
/// function of that crate.
pub proof fn lemma_added_function_is_found(index: GlobalSymbolIndex, f: CrateFunctionInfo)
    ensures
        ({
            let listed = index.functions_named(f.name@).push(f);
            &&& listed.last() == f
            &&& exists|i: int|
                0 <= i < listed.len() && (#[trigger] listed[i]).crate_name@ == f.crate_name@
        }),
{
    let listed = index.functions_named(f.name@).push(f);
    assert(listed[listed.len() - 1].crate_name@ == f.crate_name@);
}

} // verus!
