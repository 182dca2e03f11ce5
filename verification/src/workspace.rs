//! Workspace symbols and function-call detection: which crate a call targets,
//! whether it crosses a crate boundary, and how call names resolve against the
//! functions of the workspace.
use vstd::prelude::*;

use crate::global_index::current_time;
use crate::table::NameTable;
use crate::table::key_index;
use crate::table::lemma_key_index;
use crate::text::chars_of;
use crate::text::contains_chars;
use crate::text::contains_seq;
use crate::text::ends_with;
use crate::text::find;
use crate::text::first_segment;
use crate::text::lemma_find;
use crate::text::lemma_split_nonempty;
use crate::text::replace_char;
use crate::text::replace_char_exec;
use crate::text::split_chars;
use crate::text::split_seq;
use crate::text::starts_with;
use crate::text::str_contains;
use crate::text::str_ends_with;
use crate::text::str_eq;
use crate::text::str_starts_with;
use crate::text::string_from;
use crate::text::chars_eq;
use crate::text::views;
use crate::text::rfind;
use crate::text::rfind_exec;
use crate::text::lemma_rfind;
use crate::text::subvec;

verus! {

#[derive(Debug, Clone)]
pub struct RustFunction {
    pub name: String,
    pub qualified_name: String,
    pub file_path: String,
    pub line_start: usize,
    pub line_end: usize,
    pub module: String,
    pub visibility: String,
    pub parameters: Vec<String>,
    pub return_type: Option<String>,
}

#[derive(Debug, Clone)]
pub struct RustType {
    pub name: String,
    pub qualified_name: String,
    pub file_path: String,
    pub line_start: usize,
    pub line_end: usize,
    pub module: String,
    pub visibility: String,
    /// struct, enum, trait, type_alias
    pub type_kind: String,
}

#[derive(Debug, Clone)]
pub struct Dependency {
    pub from_module: String,
    pub to_module: String,
    /// use, call, field_access
    pub dependency_type: String,
    pub file_path: String,
    pub line: usize,
}

#[derive(Debug, Clone)]
pub struct FunctionReference {
    /// qualified name of called function
    pub target_function: String,
    /// qualified name of caller
    pub calling_function: String,
    pub call_type: CallType,
    /// true if calling across crate boundaries
    pub cross_crate: bool,
    /// true if call is from test code
    pub from_test: bool,
    pub file_path: String,
    pub line: usize,
}

#[derive(Debug, Clone, Copy, PartialEq, Eq, Structural)]
pub enum CallType {
    /// function_name()
    Direct,
    /// obj.method_name()
    Method,
    /// crate::module::function_name()
    Qualified,
    /// use crate::func; func()
    Import,
    /// macro_name!()
    Macro,
    /// impl trait::Trait for Type
    TraitImpl,
}

#[derive(Debug, Clone)]
pub enum DetectionError {
    MalformedCallSyntax(String),
    CircularDependency(String),
    UnresolvablePath(String),
    InvalidCrateName(String),
    ParseFailure(String),
}

#[derive(Debug, Clone)]
pub struct FunctionRegistry {
    /// name -> qualified_names
    pub functions_by_name: NameTable<Vec<String>>,
    /// qualified_name -> function
    pub functions_by_qualified: NameTable<RustFunction>,
    /// qualified names of pub functions
    pub public_functions: NameTable<()>,
}

#[derive(Debug, Clone, Copy, PartialEq, Eq, Structural)]
pub struct ResolutionStats {
    pub total_references: usize,
    pub cross_crate_detected_syntax: usize,
    pub cross_crate_detected_resolution: usize,
    pub successful_resolutions: usize,
    pub failed_resolutions: usize,
}

#[derive(Debug)]
pub struct WorkspaceSnapshot {
    pub functions: Vec<RustFunction>,
    pub types: Vec<RustType>,
    pub dependencies: Vec<Dependency>,
    pub function_references: Vec<FunctionReference>,
    pub function_registry: FunctionRegistry,
    pub timestamp: std::time::SystemTime,
}

/// What a function record says, as plain values.
pub ghost struct FunctionModel {
    pub name: Seq<char>,
    pub qualified_name: Seq<char>,
    pub file_path: Seq<char>,
    pub line_start: int,
    pub line_end: int,
    pub module: Seq<char>,
    pub visibility: Seq<char>,
    pub parameters: Seq<Seq<char>>,
    pub return_type: Option<Seq<char>>,
}

/// What a type record says, as plain values.
pub ghost struct TypeModel {
    pub name: Seq<char>,
    pub qualified_name: Seq<char>,
    pub file_path: Seq<char>,
    pub line_start: int,
    pub line_end: int,
    pub module: Seq<char>,
    pub visibility: Seq<char>,
    pub type_kind: Seq<char>,
}

/// What a dependency record says, as plain values.
pub ghost struct DependencyModel {
    pub from_module: Seq<char>,
    pub to_module: Seq<char>,
    pub dependency_type: Seq<char>,
    pub file_path: Seq<char>,
    pub line: int,
}

/// What a call reference says, as plain values.
pub ghost struct ReferenceModel {
    pub target_function: Seq<char>,
    pub calling_function: Seq<char>,
    pub call_type: CallType,
    pub cross_crate: bool,
    pub from_test: bool,
    pub file_path: Seq<char>,
    pub line: int,
}

/// The characters of an optional string.
pub open spec fn opt_view(o: Option<String>) -> Option<Seq<char>> {
    match o {
        Some(s) => Some(s@),
        None => None,
    }
}

impl View for RustFunction {
    type V = FunctionModel;

    open spec fn view(&self) -> FunctionModel {
        FunctionModel {
            name: self.name@,
            qualified_name: self.qualified_name@,
            file_path: self.file_path@,
            line_start: self.line_start as int,
            line_end: self.line_end as int,
            module: self.module@,
            visibility: self.visibility@,
            parameters: views_of(self.parameters@),
            return_type: opt_view(self.return_type),
        }
    }
}

impl View for RustType {
    type V = TypeModel;

    open spec fn view(&self) -> TypeModel {
        TypeModel {
            name: self.name@,
            qualified_name: self.qualified_name@,
            file_path: self.file_path@,
            line_start: self.line_start as int,
            line_end: self.line_end as int,
            module: self.module@,
            visibility: self.visibility@,
            type_kind: self.type_kind@,
        }
    }
}

impl View for Dependency {
    type V = DependencyModel;

    open spec fn view(&self) -> DependencyModel {
        DependencyModel {
            from_module: self.from_module@,
            to_module: self.to_module@,
            dependency_type: self.dependency_type@,
            file_path: self.file_path@,
            line: self.line as int,
        }
    }
}

impl View for FunctionReference {
    type V = ReferenceModel;

    open spec fn view(&self) -> ReferenceModel {
        ReferenceModel {
            target_function: self.target_function@,
            calling_function: self.calling_function@,
            call_type: self.call_type,
            cross_crate: self.cross_crate,
            from_test: self.from_test,
            file_path: self.file_path@,
            line: self.line as int,
        }
    }
}

impl ResolutionStats {
    /// All counters at zero.
    pub fn new() -> (s: Self)
        ensures
            s.total_references == 0,
            s.cross_crate_detected_syntax == 0,
            s.cross_crate_detected_resolution == 0,
            s.successful_resolutions == 0,
            s.failed_resolutions == 0,
    {
        ResolutionStats {
            total_references: 0,
            cross_crate_detected_syntax: 0,
            cross_crate_detected_resolution: 0,
            successful_resolutions: 0,
            failed_resolutions: 0,
        }
    }
}

/// Two functions agree on every field.
pub open spec fn same_function(a: RustFunction, b: RustFunction) -> bool {
    &&& a.name == b.name
    &&& a.qualified_name == b.qualified_name
    &&& a.file_path == b.file_path
    &&& a.line_start == b.line_start
    &&& a.line_end == b.line_end
    &&& a.module == b.module
    &&& a.visibility == b.visibility
    &&& a.parameters@ == b.parameters@
    &&& a.return_type == b.return_type
}

/// A copy of a list of strings.
pub fn copy_strings(v: &Vec<String>) -> (r: Vec<String>)
    ensures
        r@ == v@,
{
    let mut r: Vec<String> = Vec::new();
    for i in 0..v.len()
        invariant
            r@ == v@.take(i as int),
    {
        r.push(v[i].clone());
        assert(v@.take(i + 1) =~= v@.take(i as int).push(v@[i as int]));
    }
    assert(v@.take(v@.len() as int) =~= v@);
    r
}

fn copy_option_string(o: &Option<String>) -> (r: Option<String>)
    ensures
        r == *o,
{
    match o {
        Some(s) => Some(s.clone()),
        None => None,
    }
}

impl RustFunction {
    /// A field-by-field copy.
    pub fn duplicate(&self) -> (r: RustFunction)
        ensures
            same_function(r, *self),
    {
        RustFunction {
            name: self.name.clone(),
            qualified_name: self.qualified_name.clone(),
            file_path: self.file_path.clone(),
            line_start: self.line_start,
            line_end: self.line_end,
            module: self.module.clone(),
            visibility: self.visibility.clone(),
            parameters: copy_strings(&self.parameters),
            return_type: copy_option_string(&self.return_type),
        }
    }
}

impl FunctionReference {
    /// A field-by-field copy.
    pub fn duplicate(&self) -> (r: FunctionReference)
        ensures
            r == *self,
    {
        FunctionReference {
            target_function: self.target_function.clone(),
            calling_function: self.calling_function.clone(),
            call_type: self.call_type,
            cross_crate: self.cross_crate,
            from_test: self.from_test,
            file_path: self.file_path.clone(),
            line: self.line,
        }
    }
}

/// Names of the crates of Rust's standard library and of the compiler's
/// procedural-macro tooling.
pub open spec fn std_crate_name(s: Seq<char>) -> bool {
    ||| s == "std"@
    ||| s == "core"@
    ||| s == "alloc"@
    ||| s == "proc_macro"@
    ||| s == "test"@
    ||| s == "proc_macro2"@
    ||| s == "quote"@
    ||| s == "syn"@
}

/// Check if the crate is part of Rust's standard library
pub fn is_standard_library_crate(crate_name: &str) -> (b: bool)
    ensures
        b == std_crate_name(crate_name@),
{
    str_eq(crate_name, "std") || str_eq(crate_name, "core") || str_eq(crate_name, "alloc")
        || str_eq(crate_name, "proc_macro") || str_eq(crate_name, "test") || str_eq(
        crate_name,
        "proc_macro2",
    ) || str_eq(crate_name, "quote") || str_eq(crate_name, "syn")
}

/// Common external crates that might appear in trading systems
pub open spec fn external_crate_name(s: Seq<char>) -> bool {
    ||| s == "serde"@
    ||| s == "serde_json"@
    ||| s == "tokio"@
    ||| s == "async_trait"@
    ||| s == "reqwest"@
    ||| s == "chrono"@
    ||| s == "uuid"@
    ||| s == "log"@
    ||| s == "env_logger"@
    ||| s == "anyhow"@
    ||| s == "thiserror"@
    ||| s == "clap"@
    ||| s == "config"@
    ||| s == "diesel"@
    ||| s == "sqlx"@
    ||| s == "redis"@
    ||| s == "mongodb"@
    ||| s == "kafka"@
    ||| s == "tracing"@
    ||| s == "actix_web"@
    ||| s == "axum"@
    ||| s == "warp"@
    ||| s == "hyper"@
    ||| s == "tonic"@
    ||| s == "prost"@
    ||| s == "bincode"@
    ||| s == "csv"@
    ||| s == "regex"@
    ||| s == "lazy_static"@
    ||| s == "once_cell"@
    ||| s == "parking_lot"@
    ||| s == "rayon"@
    ||| s == "crossbeam"@
    ||| s == "futures"@
    ||| s == "pin_project"@
    ||| s == "bytes"@
    ||| s == "url"@
    ||| s == "base64"@
    ||| s == "hex"@
    ||| s == "sha2"@
    ||| s == "aes"@
    ||| s == "rsa"@
    ||| s == "ring"@
    ||| s == "rustls"@
    ||| s == "openssl"@
    ||| s == "jsonwebtoken"@
    ||| s == "backtrace"@
    ||| s == "criterion"@
}

/// Check if the crate is a known external/third-party crate
pub fn is_external_crate(crate_name: &str) -> (b: bool)
    ensures
        b == external_crate_name(crate_name@),
{
    let c = crate_name;
    str_eq(c, "serde") || str_eq(c, "serde_json") || str_eq(c, "tokio") || str_eq(
        c,
        "async_trait",
    ) || str_eq(c, "reqwest") || str_eq(c, "chrono") || str_eq(c, "uuid") || str_eq(c, "log")
        || str_eq(c, "env_logger") || str_eq(c, "anyhow") || str_eq(c, "thiserror") || str_eq(
        c,
        "clap",
    ) || str_eq(c, "config") || str_eq(c, "diesel") || str_eq(c, "sqlx") || str_eq(c, "redis")
        || str_eq(c, "mongodb") || str_eq(c, "kafka") || str_eq(c, "tracing") || str_eq(
        c,
        "actix_web",
    ) || str_eq(c, "axum") || str_eq(c, "warp") || str_eq(c, "hyper") || str_eq(c, "tonic")
        || str_eq(c, "prost") || str_eq(c, "bincode") || str_eq(c, "csv") || str_eq(c, "regex")
        || str_eq(c, "lazy_static") || str_eq(c, "once_cell") || str_eq(c, "parking_lot")
        || str_eq(c, "rayon") || str_eq(c, "crossbeam") || str_eq(c, "futures") || str_eq(
        c,
        "pin_project",
    ) || str_eq(c, "bytes") || str_eq(c, "url") || str_eq(c, "base64") || str_eq(c, "hex")
        || str_eq(c, "sha2") || str_eq(c, "aes") || str_eq(c, "rsa") || str_eq(c, "ring")
        || str_eq(c, "rustls") || str_eq(c, "openssl") || str_eq(c, "jsonwebtoken") || str_eq(
        c,
        "backtrace",
    ) || str_eq(c, "criterion")
}

/// A crate name with underscores written as hyphens.
pub open spec fn normalized_crate(s: Seq<char>) -> Seq<char> {
    replace_char(s, '_', '-')
}

/// The crate that a call path names: the text before the first `::`.
pub open spec fn call_crate(call: Seq<char>) -> Seq<char> {
    first_segment(call, "::"@)
}

/// A call is cross-crate when it is qualified and its crate is a standard or
/// known external crate, or differs from the current crate once underscores and
/// hyphens are identified.
pub open spec fn cross_crate_call(call: Seq<char>, current_crate: Seq<char>) -> bool {
    &&& contains_seq(call, "::"@)
    &&& {
        let c = call_crate(call);
        ||| std_crate_name(c)
        ||| external_crate_name(c)
        ||| normalized_crate(c) != normalized_crate(current_crate)
    }
}

/// Cross-crate detection does not tell `_` from `-` in the current crate's
/// name, and an unqualified call is never cross-crate.
pub proof fn lemma_cross_crate_spelling(call: Seq<char>, c1: Seq<char>, c2: Seq<char>)
    ensures
        normalized_crate(c1) == normalized_crate(c2) ==> cross_crate_call(call, c1)
            == cross_crate_call(call, c2),
        !contains_seq(call, "::"@) ==> !cross_crate_call(call, c1),
{
}

fn colons() -> (v: Vec<char>)
    ensures
        v@ == "::"@,
        v@.len() == 2,
{
    let mut v: Vec<char> = Vec::new();
    v.push(':');
    v.push(':');
    proof {
        reveal_strlit("::");
        assert(v@ =~= "::"@);
    }
    v
}

/// The text before the first occurrence of `sep`.
pub fn first_segment_exec(s: &[char], sep: &[char]) -> (r: Vec<char>)
    requires
        sep@.len() > 0,
    ensures
        r@ == first_segment(s@, sep@),
{
    let parts = split_chars(s, sep);
    proof {
        lemma_split_nonempty(s@, sep@);
        assert(views(parts@)[0] == parts@[0]@);
    }
    let mut r: Vec<char> = Vec::new();
    let first = &parts[0];
    for i in 0..first.len()
        invariant
            r@ == first@.take(i as int),
    {
        r.push(first[i]);
        assert(first@.take(i + 1) =~= first@.take(i as int).push(first@[i as int]));
    }
    assert(first@.take(first@.len() as int) =~= first@);
    r
}

/// Determines if a function call is cross-crate based on syntax analysis
pub fn is_cross_crate_call(call_text: &str, current_crate: &str) -> (b: bool)
    ensures
        b == cross_crate_call(call_text@, current_crate@),
{
    let call = chars_of(call_text);
    let sep = colons();
    if !contains_chars(call.as_slice(), sep.as_slice()) {
        return false;
    }
    let crate_chars = first_segment_exec(call.as_slice(), sep.as_slice());
    let call_crate_name = string_from(crate_chars.as_slice());
    if is_standard_library_crate(call_crate_name.as_str()) {
        return true;
    }
    if is_external_crate(call_crate_name.as_str()) {
        return true;
    }
    let current = chars_of(current_crate);
    let normalized_call_crate = replace_char_exec(crate_chars.as_slice(), '_', '-');
    let normalized_current_crate = replace_char_exec(current.as_slice(), '_', '-');
    !chars_eq(normalized_call_crate.as_slice(), normalized_current_crate.as_slice())
}

/// The crate part of a qualified name: the text before its first `::`.
pub fn extract_crate_name_from_qualified(qualified_name: &str) -> (r: String)
    ensures
        r@ == call_crate(qualified_name@),
{
    let q = chars_of(qualified_name);
    let sep = colons();
    let c = first_segment_exec(q.as_slice(), sep.as_slice());
    string_from(c.as_slice())
}

/// Validate crate name format
pub fn validate_crate_name(crate_name: &str) -> (r: Result<(), DetectionError>)
    ensures
        crate_name@.len() == 0 ==> (r matches Err(DetectionError::InvalidCrateName(m)) && m@
            == "Empty crate name"@),
        crate_name@.len() > 0 && (contains_seq(crate_name@, ".."@) || contains_seq(
            crate_name@,
            "//"@,
        )) ==> (r matches Err(DetectionError::InvalidCrateName(m)) && m@
            == "Invalid path pattern in crate name: "@ + crate_name@),
        r is Ok <==> (crate_name@.len() > 0 && !contains_seq(crate_name@, ".."@)
            && !contains_seq(crate_name@, "//"@)),
{
    if crate_name.is_empty() {
        return Err(DetectionError::InvalidCrateName(String::from_str("Empty crate name")));
    }
    if str_contains(crate_name, "..") || str_contains(crate_name, "//") {
        let msg = String::from_str("Invalid path pattern in crate name: ");
        return Err(DetectionError::InvalidCrateName(msg.concat(crate_name)));
    }
    Ok(())
}

/// Validate function call syntax
pub fn validate_call_syntax(call_text: &str) -> (r: Result<(), DetectionError>)
    ensures
        call_text@.len() == 0 ==> (r matches Err(DetectionError::MalformedCallSyntax(m)) && m@
            == "Empty function call"@),
        call_text@.len() > 0 && (contains_seq(call_text@, ":::"@) || starts_with(
            call_text@,
            "::"@,
        ) || ends_with(call_text@, "::"@)) ==> (r matches Err(
            DetectionError::MalformedCallSyntax(m),
        ) && m@ == "Malformed call syntax: "@ + call_text@),
        r is Ok <==> (call_text@.len() > 0 && !contains_seq(call_text@, ":::"@) && !starts_with(
            call_text@,
            "::"@,
        ) && !ends_with(call_text@, "::"@)),
{
    if call_text.is_empty() {
        return Err(DetectionError::MalformedCallSyntax(String::from_str("Empty function call")));
    }
    if str_contains(call_text, ":::") || str_starts_with(call_text, "::") || str_ends_with(
        call_text,
        "::",
    ) {
        let msg = String::from_str("Malformed call syntax: ");
        return Err(DetectionError::MalformedCallSyntax(msg.concat(call_text)));
    }
    Ok(())
}

/// `module::name`, or `name` alone at the top level.
pub open spec fn qualify(module: Seq<char>, name: Seq<char>) -> Seq<char> {
    if module.len() == 0 {
        name
    } else {
        module + "::"@ + name
    }
}

/// The qualified name of `name` declared in `module_prefix` (empty for the crate
/// root).
pub fn qualified_name(module_prefix: &str, name: &str) -> (r: String)
    ensures
        r@ == qualify(module_prefix@, name@),
{
    if module_prefix.is_empty() {
        String::from_str(name)
    } else {
        let q = String::from_str(module_prefix);
        let q = q.concat("::");
        q.concat(name)
    }
}

/// The first import, from position `i` on, that ends in `::call_name` and is a
/// known qualified name.
pub open spec fn import_match_from(
    by_qualified: Map<Seq<char>, RustFunction>,
    call_name: Seq<char>,
    imports: Seq<Seq<char>>,
    i: int,
) -> Option<Seq<char>>
    decreases imports.len() - i,
{
    if i < 0 || i >= imports.len() {
        None
    } else if ends_with(imports[i], "::"@ + call_name) && by_qualified.contains_key(imports[i]) {
        Some(imports[i])
    } else {
        import_match_from(by_qualified, call_name, imports, i + 1)
    }
}

/// `registry` resolves `call_name`, called from `current_module` with the given
/// imports, to a qualified name: the name itself when qualified and known; else
/// the first import ending in `::call_name` that is known; else the name in the
/// current module when known; else the only function of that name.
pub open spec fn spec_resolve_call(
    by_name: Map<Seq<char>, Vec<String>>,
    by_qualified: Map<Seq<char>, RustFunction>,
    call_name: Seq<char>,
    current_module: Seq<char>,
    imports: Seq<Seq<char>>,
) -> Option<Seq<char>> {
    if contains_seq(call_name, "::"@) && by_qualified.contains_key(call_name) {
        Some(call_name)
    } else if import_match_from(by_qualified, call_name, imports, 0) is Some {
        import_match_from(by_qualified, call_name, imports, 0)
    } else if by_qualified.contains_key(current_module + "::"@ + call_name) {
        Some(current_module + "::"@ + call_name)
    } else if by_name.contains_key(call_name) && by_name[call_name]@.len() == 1 {
        Some(by_name[call_name]@[0]@)
    } else {
        None
    }
}

proof fn lemma_import_match_from(
    by_qualified: Map<Seq<char>, RustFunction>,
    call_name: Seq<char>,
    imports: Seq<Seq<char>>,
    i: int,
)
    requires
        0 <= i,
    ensures
        match import_match_from(by_qualified, call_name, imports, i) {
            Some(q) => by_qualified.contains_key(q) && ends_with(q, "::"@ + call_name) && exists|j: int|
                i <= j < imports.len() && imports[j] == q,
            None => forall|j: int|
                i <= j < imports.len() ==> !(ends_with(#[trigger] imports[j], "::"@ + call_name)
                    && by_qualified.contains_key(imports[j])),
        },
    decreases imports.len() - i,
{
    if i < imports.len() {
        lemma_import_match_from(by_qualified, call_name, imports, i + 1);
    }
}

/// Resolution names the function that is called: a resolved name is a known
/// function whose path ends in `::` and the call's name, or the call itself
/// when it is a known qualified name, or else the one function of that name.
/// A known import ending in `::` and the call's name is preferred over the
/// current module and over a function found by its name alone.
pub proof fn lemma_resolution_names_the_call(
    by_name: Map<Seq<char>, Vec<String>>,
    by_qualified: Map<Seq<char>, RustFunction>,
    call_name: Seq<char>,
    current_module: Seq<char>,
    imports: Seq<Seq<char>>,
)
    ensures
        spec_resolve_call(by_name, by_qualified, call_name, current_module, imports) matches Some(q)
            ==> (by_qualified.contains_key(q) && (q == call_name || ends_with(q, "::"@ + call_name)))
            || (by_name.contains_key(call_name) && by_name[call_name]@.len() == 1 && q
            == by_name[call_name]@[0]@),
        (!contains_seq(call_name, "::"@) || !by_qualified.contains_key(call_name)) && (exists|j: int|
            0 <= j < imports.len() && ends_with(#[trigger] imports[j], "::"@ + call_name)
                && by_qualified.contains_key(imports[j])) ==> (spec_resolve_call(
            by_name,
            by_qualified,
            call_name,
            current_module,
            imports,
        ) matches Some(q) && ends_with(q, "::"@ + call_name) && imports.contains(q)),
{
    lemma_import_match_from(by_qualified, call_name, imports, 0);
    let local = current_module + "::"@ + call_name;
    let suffix = "::"@ + call_name;
    assert(local.subrange(local.len() - suffix.len(), local.len() as int) =~= suffix);
}

impl FunctionRegistry {
    /// An empty registry.
    pub fn new() -> (r: Self)
        ensures
            r.functions_by_name@ == Map::<Seq<char>, Vec<String>>::empty(),
            r.functions_by_qualified@ == Map::<Seq<char>, RustFunction>::empty(),
            r.public_functions@ == Map::<Seq<char>, ()>::empty(),
    {
        FunctionRegistry {
            functions_by_name: NameTable::new(),
            functions_by_qualified: NameTable::new(),
            public_functions: NameTable::new(),
        }
    }

    /// Resolve a call name to the qualified name of a known function.
    pub fn resolve_function_call(&self, call_name: &str, current_module: &str, imports: &[String]) -> (r: Option<String>)
        ensures
            match r {
                Some(q) => spec_resolve_call(
                    self.functions_by_name@,
                    self.functions_by_qualified@,
                    call_name@,
                    current_module@,
                    views_of(imports@),
                ) == Some(q@),
                None => spec_resolve_call(
                    self.functions_by_name@,
                    self.functions_by_qualified@,
                    call_name@,
                    current_module@,
                    views_of(imports@),
                ) is None,
            },
    {
        let ghost bq = self.functions_by_qualified@;
        let ghost im = views_of(imports@);
        // 1. Check if it's already qualified
        if str_contains(call_name, "::") {
            if self.functions_by_qualified.contains_key(call_name) {
                return Some(String::from_str(call_name));
            }
        }
        // 2. Check imports first
        let suffix = String::from_str("::").concat(call_name);
        for i in 0..imports.len()
            invariant
                suffix@ == "::"@ + call_name@,
                im == views_of(imports@),
                im.len() == imports@.len(),
                bq == self.functions_by_qualified@,
                !(contains_seq(call_name@, "::"@) && bq.contains_key(call_name@)),
                import_match_from(bq, call_name@, im, 0) == import_match_from(
                    bq,
                    call_name@,
                    im,
                    i as int,
                ),
        {
            let import = &imports[i];
            assert(im[i as int] == import@);
            if str_ends_with(import.as_str(), suffix.as_str()) {
                if self.functions_by_qualified.contains_key(import.as_str()) {
                    return Some(import.clone());
                }
            }
        }
        // 3. Check same module
        let same_module_qualified = String::from_str(current_module).concat("::").concat(
            call_name,
        );
        if self.functions_by_qualified.contains_key(same_module_qualified.as_str()) {
            return Some(same_module_qualified);
        }
        // 4. Check all functions with this name
        if let Some(candidates) = self.functions_by_name.get(call_name) {
            if candidates.len() == 1 {
                return Some(candidates[0].clone());
            }
        }
        None
    }
}

/// The character sequences of a list of strings.
pub open spec fn views_of(s: Seq<String>) -> Seq<Seq<char>> {
    s.map_values(|x: String| x@)
}

/// The qualified names of the functions of `fs` named `name`, in order.
pub open spec fn qualified_names_named(fs: Seq<RustFunction>, name: Seq<char>) -> Seq<Seq<char>>
    decreases fs.len(),
{
    if fs.len() == 0 {
        Seq::empty()
    } else if fs.last().name@ == name {
        qualified_names_named(fs.drop_last(), name).push(fs.last().qualified_name@)
    } else {
        qualified_names_named(fs.drop_last(), name)
    }
}

/// Position of the last function of `fs` with the qualified name `q`, or -1.
pub open spec fn last_with_qualified(fs: Seq<RustFunction>, q: Seq<char>) -> int
    decreases fs.len(),
{
    if fs.len() == 0 {
        -1
    } else if fs.last().qualified_name@ == q {
        fs.len() - 1
    } else {
        last_with_qualified(fs.drop_last(), q)
    }
}

proof fn lemma_last_with_qualified(fs: Seq<RustFunction>, q: Seq<char>)
    ensures
        -1 <= last_with_qualified(fs, q) < fs.len(),
        last_with_qualified(fs, q) >= 0 ==> fs[last_with_qualified(fs, q)].qualified_name@ == q,
        last_with_qualified(fs, q) == -1 <==> (forall|i: int|
            0 <= i < fs.len() ==> fs[i].qualified_name@ != q),
    decreases fs.len(),
{
    if fs.len() > 0 {
        lemma_last_with_qualified(fs.drop_last(), q);
        if fs.last().qualified_name@ != q {
            assert forall|i: int| 0 <= i < fs.len() - 1 implies fs.drop_last()[i] == fs[i] by {}
        }
    }
}

/// A function counts as public when its visibility mentions `pub`.
pub open spec fn is_public_function(f: RustFunction) -> bool {
    contains_seq(f.visibility@, "pub"@)
}

/// What the registry built from `fs` holds.
pub open spec fn registry_of(r: FunctionRegistry, fs: Seq<RustFunction>) -> bool {
    &&& forall|k: Seq<char>|
        #![trigger r.functions_by_name@.contains_key(k)]
        r.functions_by_name@.contains_key(k) <==> exists|i: int|
            0 <= i < fs.len() && #[trigger] fs[i].name@ == k
    &&& forall|k: Seq<char>|
        #[trigger] r.functions_by_name@.contains_key(k) ==> views_of(
            r.functions_by_name@[k]@,
        ) == qualified_names_named(fs, k)
    &&& forall|q: Seq<char>|
        #![trigger r.functions_by_qualified@.contains_key(q)]
        r.functions_by_qualified@.contains_key(q) <==> last_with_qualified(fs, q) >= 0
    &&& forall|q: Seq<char>|
        #[trigger] r.functions_by_qualified@.contains_key(q) ==> same_function(
            r.functions_by_qualified@[q],
            fs[last_with_qualified(fs, q)],
        )
    &&& forall|q: Seq<char>|
        #![trigger r.public_functions@.contains_key(q)]
        r.public_functions@.contains_key(q) <==> exists|i: int|
            0 <= i < fs.len() && #[trigger] fs[i].qualified_name@ == q && is_public_function(
                fs[i],
            )
}

/// Build the lookup tables of the functions of a workspace: qualified names by
/// simple name, functions by qualified name (the last one wins), and the set of
/// public qualified names.
pub fn build_function_registry(functions: &[RustFunction]) -> (r: FunctionRegistry)
    ensures
        registry_of(r, functions@),
{
    let mut registry = FunctionRegistry::new();
    for n in 0..functions.len()
        invariant
            registry_of(registry, functions@.take(n as int)),
    {
        let ghost before = registry;
        let ghost fs = functions@.take(n as int);
        let ghost fs1 = functions@.take(n + 1);
        let func = &functions[n];
        proof {
            assert(fs1.drop_last() =~= fs);
            assert(fs1.last() == *func);
        }
        registry.functions_by_name.push_to(func.name.clone(), func.qualified_name.clone());
        registry.functions_by_qualified.insert(func.qualified_name.clone(), func.duplicate());
        if str_contains(func.visibility.as_str(), "pub") {
            registry.public_functions.insert(func.qualified_name.clone(), ());
        }
        proof {
            let r = registry;
            assert forall|k: Seq<char>|
                #![trigger r.functions_by_name@.contains_key(k)]
                r.functions_by_name@.contains_key(k) <==> exists|i: int|
                    0 <= i < fs1.len() && #[trigger] fs1[i].name@ == k by {
                if r.functions_by_name@.contains_key(k) && k != func.name@ {
                    assert(before.functions_by_name@.contains_key(k));
                    let i = choose|i: int| 0 <= i < fs.len() && #[trigger] fs[i].name@ == k;
                    assert(fs1[i] == fs[i]);
                }
                if k == func.name@ {
                    assert(fs1[n as int].name@ == k);
                }
                if exists|i: int| 0 <= i < fs1.len() && #[trigger] fs1[i].name@ == k {
                    let i = choose|i: int| 0 <= i < fs1.len() && #[trigger] fs1[i].name@ == k;
                    if i < n {
                        assert(fs[i] == fs1[i]);
                    }
                }
            }
            assert forall|k: Seq<char>| #[trigger]
                r.functions_by_name@.contains_key(k) implies views_of(r.functions_by_name@[k]@)
                == qualified_names_named(fs1, k) by {
                if k == func.name@ {
                    if before.functions_by_name@.contains_key(k) {
                        assert(views_of(r.functions_by_name@[k]@) =~= views_of(
                            before.functions_by_name@[k]@,
                        ).push(func.qualified_name@));
                    } else {
                        assert forall|i: int| 0 <= i < fs.len() implies fs[i].name@ != k by {}
                        lemma_no_name(fs, k);
                        assert(views_of(r.functions_by_name@[k]@) =~= seq![func.qualified_name@]);
                        assert(qualified_names_named(fs, k) =~= Seq::<Seq<char>>::empty());
                    }
                }
            }
            assert forall|q: Seq<char>|
                #![trigger r.functions_by_qualified@.contains_key(q)]
                r.functions_by_qualified@.contains_key(q) <==> last_with_qualified(fs1, q) >= 0 by {
            }
            assert forall|q: Seq<char>| #[trigger]
                r.functions_by_qualified@.contains_key(q) implies same_function(
                r.functions_by_qualified@[q],
                fs1[last_with_qualified(fs1, q)],
            ) by {
                if q != func.qualified_name@ {
                    lemma_last_with_qualified(fs, q);
                    assert(fs1[last_with_qualified(fs1, q)] == fs[last_with_qualified(fs, q)]);
                }
            }
            assert forall|q: Seq<char>|
                #![trigger r.public_functions@.contains_key(q)]
                r.public_functions@.contains_key(q) <==> exists|i: int|
                    0 <= i < fs1.len() && #[trigger] fs1[i].qualified_name@ == q
                        && is_public_function(fs1[i]) by {
                if r.public_functions@.contains_key(q) && before.public_functions@.contains_key(q) {
                    let i = choose|i: int|
                        0 <= i < fs.len() && #[trigger] fs[i].qualified_name@ == q
                            && is_public_function(fs[i]);
                    assert(fs1[i] == fs[i]);
                }
                if r.public_functions@.contains_key(q) && !before.public_functions@.contains_key(q) {
                    assert(fs1[n as int].qualified_name@ == q);
                }
                if exists|i: int|
                    0 <= i < fs1.len() && #[trigger] fs1[i].qualified_name@ == q
                        && is_public_function(fs1[i]) {
                    let i = choose|i: int|
                        0 <= i < fs1.len() && #[trigger] fs1[i].qualified_name@ == q
                            && is_public_function(fs1[i]);
                    if i < n {
                        assert(fs[i] == fs1[i]);
                    }
                }
            }
        }
    }
    proof {
        assert(functions@.take(functions@.len() as int) =~= functions@);
    }
    registry
}

proof fn lemma_no_name(fs: Seq<RustFunction>, k: Seq<char>)
    requires
        forall|i: int| 0 <= i < fs.len() ==> fs[i].name@ != k,
    ensures
        qualified_names_named(fs, k) == Seq::<Seq<char>>::empty(),
    decreases fs.len(),
{
    if fs.len() > 0 {
        assert forall|i: int| 0 <= i < fs.len() - 1 implies fs.drop_last()[i].name@ != k by {
            assert(fs.drop_last()[i] == fs[i]);
        }
        lemma_no_name(fs.drop_last(), k);
    }
}

} // verus!

verus! {

/// The module of a qualified caller name: the text before its last `::`, or
/// empty.
pub open spec fn module_of_caller(caller: Seq<char>) -> Seq<char> {
    let p = rfind(caller, "::"@);
    if p >= 0 {
        caller.take(p)
    } else {
        Seq::empty()
    }
}

/// `out` is `r` after resolution against `reg`: a resolved target replaces the
/// call text, and the reference becomes cross-crate when it already was or when
/// the resolved target lies in another crate than the caller; an unresolved
/// reference is kept as it is.
pub open spec fn resolution_of(
    reg: FunctionRegistry,
    r: FunctionReference,
    out: FunctionReference,
) -> bool {
    match spec_resolve_call(
        reg.functions_by_name@,
        reg.functions_by_qualified@,
        r.target_function@,
        module_of_caller(r.calling_function@),
        Seq::empty(),
    ) {
        Some(q) => {
            &&& out.target_function@ == q
            &&& out.cross_crate == (r.cross_crate || call_crate(q) != call_crate(
                r.calling_function@,
            ))
            &&& out.calling_function == r.calling_function
            &&& out.call_type == r.call_type
            &&& out.from_test == r.from_test
            &&& out.file_path == r.file_path
            &&& out.line == r.line
        },
        None => out == r,
    }
}

/// `out` is the model of `r` after resolution against `reg` (as
/// `resolution_of`, over models).
pub open spec fn resolved_model(reg: FunctionRegistry, r: ReferenceModel, out: ReferenceModel) -> bool {
    match spec_resolve_call(
        reg.functions_by_name@,
        reg.functions_by_qualified@,
        r.target_function,
        module_of_caller(r.calling_function),
        Seq::empty(),
    ) {
        Some(q) => {
            &&& out.target_function == q
            &&& out.cross_crate == (r.cross_crate || call_crate(q) != call_crate(
                r.calling_function,
            ))
            &&& out.calling_function == r.calling_function
            &&& out.call_type == r.call_type
            &&& out.from_test == r.from_test
            &&& out.file_path == r.file_path
            &&& out.line == r.line
        },
        None => out == r,
    }
}

/// Resolution never loses what was known of a reference: one detected as
/// cross-crate stays cross-crate, and the caller, call kind, test flag, file
/// and line stay as they were, whether or not the target is found.
pub proof fn lemma_resolution_preserves_reference(
    reg: FunctionRegistry,
    r: FunctionReference,
    out: FunctionReference,
)
    requires
        resolution_of(reg, r, out),
    ensures
        r.cross_crate ==> out.cross_crate,
        out.calling_function == r.calling_function,
        out.call_type == r.call_type,
        out.from_test == r.from_test,
        out.file_path == r.file_path,
        out.line == r.line,
{
}

pub proof fn lemma_resolution_models(reg: FunctionRegistry, r: FunctionReference, out: FunctionReference)
    requires
        resolution_of(reg, r, out),
    ensures
        resolved_model(reg, r@, out@),
{
}

/// The text before the last occurrence of `::`, or nothing.
fn caller_module(caller: &str) -> (r: String)
    ensures
        r@ == module_of_caller(caller@),
{
    let c = chars_of(caller);
    let sep = colons();
    match rfind_exec(c.as_slice(), sep.as_slice()) {
        Some(p) => {
            proof {
                lemma_rfind(c@, sep@);
            }
            let m = subvec(c.as_slice(), 0, p);
            assert(m@ =~= c@.take(p as int));
            string_from(m.as_slice())
        },
        None => String::new(),
    }
}

/// Resolve one function reference against the registry, keeping its
/// cross-crate status when it was already detected from the syntax.
pub fn resolve_function_reference(func_ref: &FunctionReference, registry: &FunctionRegistry) -> (r: Option<FunctionReference>)
    ensures
        r matches Some(out) && resolution_of(*registry, *func_ref, out),
{
    let calling_module = caller_module(func_ref.calling_function.as_str());
    let file_imports: Vec<String> = Vec::new();
    proof {
        assert(views_of(file_imports@) =~= Seq::<Seq<char>>::empty());
    }
    match registry.resolve_function_call(
        func_ref.target_function.as_str(),
        calling_module.as_str(),
        file_imports.as_slice(),
    ) {
        Some(resolved_target) => {
            let target_crate = extract_crate_name_from_qualified(resolved_target.as_str());
            let calling_crate = extract_crate_name_from_qualified(
                func_ref.calling_function.as_str(),
            );
            let cross_crate = if func_ref.cross_crate {
                true
            } else {
                !str_eq(target_crate.as_str(), calling_crate.as_str())
            };
            Some(
                FunctionReference {
                    target_function: resolved_target,
                    calling_function: func_ref.calling_function.clone(),
                    call_type: func_ref.call_type,
                    cross_crate,
                    from_test: func_ref.from_test,
                    file_path: func_ref.file_path.clone(),
                    line: func_ref.line,
                },
            )
        },
        None => Some(func_ref.duplicate()),
    }
}

/// Number of references in `s` satisfying `p`.
pub open spec fn count_refs(s: Seq<FunctionReference>, p: spec_fn(FunctionReference) -> bool) -> int
    decreases s.len(),
{
    if s.len() == 0 {
        0
    } else {
        count_refs(s.drop_last(), p) + if p(s.last()) {
            1int
        } else {
            0int
        }
    }
}

proof fn lemma_count_refs_bound(s: Seq<FunctionReference>, p: spec_fn(FunctionReference) -> bool)
    ensures
        0 <= count_refs(s, p) <= s.len(),
    decreases s.len(),
{
    if s.len() > 0 {
        lemma_count_refs_bound(s.drop_last(), p);
    }
}

/// Number of positions where the reference became cross-crate by resolution.
pub open spec fn count_newly_cross(old: Seq<FunctionReference>, new: Seq<FunctionReference>) -> int
    decreases old.len(),
{
    if old.len() == 0 || new.len() != old.len() {
        0
    } else {
        count_newly_cross(old.drop_last(), new.drop_last()) + if new.last().cross_crate
            && !old.last().cross_crate {
            1int
        } else {
            0int
        }
    }
}

proof fn lemma_count_newly_cross_bound(old: Seq<FunctionReference>, new: Seq<FunctionReference>)
    ensures
        0 <= count_newly_cross(old, new) <= old.len(),
    decreases old.len(),
{
    if old.len() > 0 && new.len() == old.len() {
        lemma_count_newly_cross_bound(old.drop_last(), new.drop_last());
    }
}

/// Resolve every reference in place against the registry and count the
/// outcome: references seen, those cross-crate by syntax, those found
/// cross-crate only by resolution, and successful and failed resolutions.
pub fn resolve_references(function_references: &mut Vec<FunctionReference>, registry: &FunctionRegistry) -> (stats: ResolutionStats)
    ensures
        final(function_references)@.len() == old(function_references)@.len(),
        forall|i: int|
            0 <= i < old(function_references)@.len() ==> resolution_of(
                *registry,
                old(function_references)@[i],
                #[trigger] final(function_references)@[i],
            ),
        stats.total_references == old(function_references)@.len(),
        stats.successful_resolutions == old(function_references)@.len(),
        stats.failed_resolutions == 0,
        stats.cross_crate_detected_syntax == count_refs(
            old(function_references)@,
            |r: FunctionReference| r.cross_crate,
        ),
        stats.cross_crate_detected_resolution == count_newly_cross(
            old(function_references)@,
            final(function_references)@,
        ),
{
    let mut stats = ResolutionStats {
        total_references: 0,
        cross_crate_detected_syntax: 0,
        cross_crate_detected_resolution: 0,
        successful_resolutions: 0,
        failed_resolutions: 0,
    };
    let ghost orig = function_references@;
    let n = function_references.len();
    for i in 0..n
        invariant
            n == orig.len(),
            function_references@.len() == n,
            forall|k: int|
                0 <= k < i ==> resolution_of(*registry, orig[k], #[trigger] function_references@[k]),
            forall|k: int| i <= k < n ==> #[trigger] function_references@[k] == orig[k],
            stats.total_references == i,
            stats.successful_resolutions == i,
            stats.failed_resolutions == 0,
            stats.cross_crate_detected_syntax == count_refs(
                orig.take(i as int),
                |r: FunctionReference| r.cross_crate,
            ),
            stats.cross_crate_detected_resolution == count_newly_cross(
                orig.take(i as int),
                function_references@.take(i as int),
            ),
    {
        let func_ref = function_references[i].duplicate();
        proof {
            assert(orig.take(i + 1).drop_last() =~= orig.take(i as int));
            lemma_count_refs_bound(orig.take(i as int), |r: FunctionReference| r.cross_crate);
            lemma_count_newly_cross_bound(orig.take(i as int), function_references@.take(i as int));
        }
        stats.total_references = stats.total_references + 1;
        if func_ref.cross_crate {
            stats.cross_crate_detected_syntax = stats.cross_crate_detected_syntax + 1;
        }
        let ghost before = function_references@;
        match resolve_function_reference(&func_ref, registry) {
            Some(resolved) => {
                stats.successful_resolutions = stats.successful_resolutions + 1;
                if resolved.cross_crate && !func_ref.cross_crate {
                    stats.cross_crate_detected_resolution = stats.cross_crate_detected_resolution
                        + 1;
                }
                function_references.set(i, resolved);
            },
            None => {
                stats.failed_resolutions = stats.failed_resolutions + 1;
            },
        }
        proof {
            let after = function_references@;
            assert(after.take(i + 1).drop_last() =~= before.take(i as int));
            assert(orig.take(i + 1).last() == orig[i as int]);
        }
    }
    proof {
        assert(orig.take(n as int) =~= orig);
        assert(function_references@.take(n as int) =~= function_references@);
    }
    stats
}

} // verus!
