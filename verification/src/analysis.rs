//! The analysis of a whole workspace: every parsed source file is read for its
//! symbols and references, the function registry is built, and each reference is
//! resolved against it.
use vstd::prelude::*;
use vstd::utf8::encode_utf8;

use crate::config::Config;
use crate::extract::dependency_models;
use crate::extract::extract_dependencies_and_references;
use crate::extract::extract_functions;
use crate::extract::extract_types;
use crate::extract::function_models;
use crate::extract::node_deps;
use crate::extract::node_functions;
use crate::extract::node_imports;
use crate::extract::node_refs;
use crate::extract::node_types;
use crate::extract::reference_models;
use crate::extract::type_models;
use crate::global_index::current_time;
use crate::table::NameTable;
use crate::text::chars_of;
use crate::text::contains_seq;
use crate::text::ends_with;
use crate::text::lemma_rfind;
use crate::text::occurs_at;
use crate::text::rfind;
use crate::text::rfind_exec;
use crate::text::starts_with;
use crate::text::str_contains;
use crate::text::str_ends_with;
use crate::text::str_starts_with;
use crate::text::string_from;
use crate::text::subvec;
use crate::workspace::call_crate;
use crate::workspace::extract_crate_name_from_qualified;
use crate::syntax::SyntaxNode;
use crate::syntax::rows_fit;
use crate::syntax::rows_fit_exec;
use crate::syntax::rust_syntax;
use crate::syntax::parse_rust_source;
use crate::workspace::Dependency;
use crate::workspace::DependencyModel;
use crate::workspace::FunctionModel;
use crate::workspace::FunctionReference;
use crate::workspace::ReferenceModel;
use crate::workspace::ResolutionStats;
use crate::workspace::RustFunction;
use crate::workspace::RustType;
use crate::workspace::TypeModel;
use crate::workspace::WorkspaceSnapshot;
use crate::workspace::build_function_registry;
use crate::workspace::count_refs;
use crate::workspace::count_newly_cross;
use crate::workspace::lemma_resolution_models;
use crate::workspace::registry_of;
use crate::workspace::resolve_references;
use crate::workspace::resolved_model;

verus! {

/// Files larger than this many bytes are not analysed.
pub const MAX_ANALYZED_FILE_BYTES: usize = 500_000;

/// Files of this size or more are left out when the source directories are
/// scanned.
pub const MAX_SCANNED_FILE_BYTES: u64 = 1_000_000;

/// Whether a file found while scanning is kept: when its size is known it
/// must be below `MAX_SCANNED_FILE_BYTES`; a file whose size cannot be read is
/// kept.
pub fn within_scan_size(metadata_len: Option<u64>) -> (b: bool)
    ensures
        b == match metadata_len {
            Some(n) => n < MAX_SCANNED_FILE_BYTES,
            None => true,
        },
{
    match metadata_len {
        Some(n) => n < MAX_SCANNED_FILE_BYTES,
        None => true,
    }
}

/// A source file of the workspace is analysed only when it is not larger than
/// `MAX_ANALYZED_FILE_BYTES`.
pub fn within_analysis_size(content_len: usize) -> (b: bool)
    ensures
        b == (content_len <= MAX_ANALYZED_FILE_BYTES),
{
    content_len <= MAX_ANALYZED_FILE_BYTES
}

/// One parsed source file: where it is, the crate it belongs to, its module
/// path and its syntax tree.
#[derive(Debug)]
pub struct SourceFile {
    pub file_path: String,
    pub crate_name: String,
    pub module_prefix: String,
    pub tree: SyntaxNode,
}

/// The functions declared in the files, file after file.
pub open spec fn all_functions(fs: Seq<SourceFile>) -> Seq<FunctionModel>
    decreases fs.len(),
{
    if fs.len() == 0 {
        Seq::empty()
    } else {
        let f = fs.last();
        all_functions(fs.drop_last()) + node_functions(f.tree, f.module_prefix@, f.file_path@)
    }
}

/// The types declared in the files, file after file.
pub open spec fn all_types(fs: Seq<SourceFile>) -> Seq<TypeModel>
    decreases fs.len(),
{
    if fs.len() == 0 {
        Seq::empty()
    } else {
        let f = fs.last();
        all_types(fs.drop_last()) + node_types(f.tree, f.module_prefix@, f.file_path@)
    }
}

/// The dependencies recorded in the files, file after file.
pub open spec fn all_deps(fs: Seq<SourceFile>) -> Seq<DependencyModel>
    decreases fs.len(),
{
    if fs.len() == 0 {
        Seq::empty()
    } else {
        let f = fs.last();
        all_deps(fs.drop_last()) + node_deps(f.tree, f.file_path@)
    }
}

/// The call references of the files as read off the syntax, before resolution.
pub open spec fn all_refs(fs: Seq<SourceFile>) -> Seq<ReferenceModel>
    decreases fs.len(),
{
    if fs.len() == 0 {
        Seq::empty()
    } else {
        let f = fs.last();
        all_refs(fs.drop_last()) + node_refs(
            f.tree,
            f.module_prefix@,
            f.module_prefix@,
            f.file_path@,
            f.crate_name@,
            node_imports(f.tree),
        )
    }
}

/// Number of references that are cross-crate.
pub open spec fn count_cross(ms: Seq<ReferenceModel>) -> int
    decreases ms.len(),
{
    if ms.len() == 0 {
        0
    } else {
        count_cross(ms.drop_last()) + if ms.last().cross_crate {
            1int
        } else {
            0int
        }
    }
}

/// Number of positions where the reference became cross-crate between `old`
/// and `new`.
pub open spec fn count_became_cross(old: Seq<ReferenceModel>, new: Seq<ReferenceModel>) -> int
    decreases old.len(),
{
    if old.len() == 0 || new.len() != old.len() {
        0
    } else {
        count_became_cross(old.drop_last(), new.drop_last()) + if new.last().cross_crate
            && !old.last().cross_crate {
            1int
        } else {
            0int
        }
    }
}

proof fn lemma_count_became_cross(old: Seq<FunctionReference>, new: Seq<FunctionReference>)
    ensures
        count_newly_cross(old, new) == count_became_cross(reference_models(old), reference_models(new)),
    decreases old.len(),
{
    if old.len() > 0 && new.len() == old.len() {
        lemma_count_became_cross(old.drop_last(), new.drop_last());
        assert(reference_models(old.drop_last()) =~= reference_models(old).drop_last());
        assert(reference_models(new.drop_last()) =~= reference_models(new).drop_last());
    }
}

proof fn lemma_count_cross(s: Seq<FunctionReference>)
    ensures
        count_refs(s, |r: FunctionReference| r.cross_crate) == count_cross(reference_models(s)),
    decreases s.len(),
{
    if s.len() > 0 {
        lemma_count_cross(s.drop_last());
        assert(reference_models(s.drop_last()) =~= reference_models(s).drop_last());
    }
}

/// Reads every file and resolves every call reference against the functions
/// found: the snapshot holds the functions, types and dependencies of the files
/// in order, the registry of the functions, and each reference as resolution
/// leaves it; the statistics count the references and those found cross-crate
/// from the syntax alone.
pub fn analyze_sources(files: &[SourceFile]) -> (r: (WorkspaceSnapshot, ResolutionStats))
    requires
        forall|i: int| 0 <= i < files@.len() ==> #[trigger] rows_fit(files@[i].tree),
    ensures
        function_models(r.0.functions@) == all_functions(files@),
        type_models(r.0.types@) == all_types(files@),
        dependency_models(r.0.dependencies@) == all_deps(files@),
        registry_of(r.0.function_registry, r.0.functions@),
        r.0.function_references@.len() == all_refs(files@).len(),
        forall|i: int|
            0 <= i < all_refs(files@).len() ==> resolved_model(
                r.0.function_registry,
                all_refs(files@)[i],
                #[trigger] r.0.function_references@[i]@,
            ),
        r.1.total_references == all_refs(files@).len(),
        r.1.successful_resolutions == all_refs(files@).len(),
        r.1.failed_resolutions == 0,
        r.1.cross_crate_detected_syntax == count_cross(all_refs(files@)),
        r.1.cross_crate_detected_resolution == count_became_cross(
            all_refs(files@),
            reference_models(r.0.function_references@),
        ),
{
    let mut functions: Vec<RustFunction> = Vec::new();
    let mut types: Vec<RustType> = Vec::new();
    let mut dependencies: Vec<Dependency> = Vec::new();
    let mut references: Vec<FunctionReference> = Vec::new();
    proof {
        assert(function_models(functions@) =~= all_functions(files@.take(0)));
        assert(type_models(types@) =~= all_types(files@.take(0)));
        assert(dependency_models(dependencies@) =~= all_deps(files@.take(0)));
        assert(reference_models(references@) =~= all_refs(files@.take(0)));
    }
    let mut i: usize = 0;
    while i < files.len()
        invariant
            i <= files@.len(),
            forall|j: int| 0 <= j < files@.len() ==> #[trigger] rows_fit(files@[j].tree),
            function_models(functions@) == all_functions(files@.take(i as int)),
            type_models(types@) == all_types(files@.take(i as int)),
            dependency_models(dependencies@) == all_deps(files@.take(i as int)),
            reference_models(references@) == all_refs(files@.take(i as int)),
        decreases files@.len() - i,
    {
        let f = &files[i];
        assert(rows_fit(files@[i as int].tree));
        let mut fs = extract_functions(&f.tree, f.file_path.as_str(), f.module_prefix.as_str());
        let mut ts = extract_types(&f.tree, f.file_path.as_str(), f.module_prefix.as_str());
        let (mut ds, mut rs) = extract_dependencies_and_references(
            &f.tree,
            f.file_path.as_str(),
            f.module_prefix.as_str(),
            f.crate_name.as_str(),
        );
        proof {
            let t = files@.take(i + 1);
            assert(t.drop_last() =~= files@.take(i as int));
            assert(t.last() == files@[i as int]);
        }
        let ghost (f0, t0, d0, r0) = (functions@, types@, dependencies@, references@);
        let ghost (f1, t1, d1, r1) = (fs@, ts@, ds@, rs@);
        functions.append(&mut fs);
        types.append(&mut ts);
        dependencies.append(&mut ds);
        references.append(&mut rs);
        proof {
            assert(function_models(f0 + f1) =~= function_models(f0) + function_models(f1));
            assert(type_models(t0 + t1) =~= type_models(t0) + type_models(t1));
            assert(dependency_models(d0 + d1) =~= dependency_models(d0) + dependency_models(d1));
            assert(reference_models(r0 + r1) =~= reference_models(r0) + reference_models(r1));
        }
        i = i + 1;
    }
    proof {
        assert(files@.take(files@.len() as int) =~= files@);
    }
    let registry = build_function_registry(functions.as_slice());
    let ghost raw = references@;
    let stats = resolve_references(&mut references, &registry);
    proof {
        lemma_count_cross(raw);
        lemma_count_became_cross(raw, references@);
        assert forall|k: int| 0 <= k < all_refs(files@).len() implies resolved_model(
            registry,
            all_refs(files@)[k],
            #[trigger] references@[k]@,
        ) by {
            assert(reference_models(raw)[k] == raw[k]@);
            lemma_resolution_models(registry, raw[k], references@[k]);
        }
    }
    let snapshot = WorkspaceSnapshot {
        functions,
        types,
        dependencies,
        function_references: references,
        function_registry: registry,
        timestamp: current_time(),
    };
    (snapshot, stats)
}

/// A source file of the workspace as read from disk: where it is, the crate
/// and module path that its location gives, and its text.
#[derive(Debug)]
pub struct SourceText {
    pub file_path: String,
    pub crate_name: String,
    pub module_prefix: String,
    pub content: String,
}

/// Length in bytes of the text's UTF-8 encoding, as `str::len` gives it.
pub open spec fn utf8_len(s: Seq<char>) -> usize {
    encode_utf8(s).len() as usize
}

/// The tree under which a text is analysed: none when the text is longer than
/// `MAX_ANALYZED_FILE_BYTES` bytes, when the parser gives no tree, or when a
/// row of the tree is `usize::MAX`.
pub open spec fn analyzed_tree(content: Seq<char>) -> Option<SyntaxNode> {
    if utf8_len(content) > MAX_ANALYZED_FILE_BYTES {
        None
    } else {
        match rust_syntax(content) {
            Some(tree) => if rows_fit(tree) {
                Some(tree)
            } else {
                None
            },
            None => None,
        }
    }
}

/// `f` is the file `t` read under `tree`.
pub open spec fn read_as(f: SourceFile, t: SourceText, tree: SyntaxNode) -> bool {
    &&& f.file_path@ == t.file_path@
    &&& f.crate_name@ == t.crate_name@
    &&& f.module_prefix@ == t.module_prefix@
    &&& f.tree == tree
}

/// The file `t` with the tree `tree`.
pub open spec fn source_file_of(t: SourceText, tree: SyntaxNode) -> SourceFile {
    SourceFile {
        file_path: t.file_path,
        crate_name: t.crate_name,
        module_prefix: t.module_prefix,
        tree,
    }
}

/// The files of `ts` that are analysed, in order, each with its tree.
pub open spec fn parsed_sources(ts: Seq<SourceText>) -> Seq<SourceFile>
    decreases ts.len(),
{
    if ts.len() == 0 {
        Seq::empty()
    } else {
        let rest = parsed_sources(ts.drop_last());
        match analyzed_tree(ts.last().content@) {
            Some(tree) => rest.push(source_file_of(ts.last(), tree)),
            None => rest,
        }
    }
}

/// The two files have the same location, crate, module path and tree.
pub open spec fn same_source(a: SourceFile, b: SourceFile) -> bool {
    &&& a.file_path@ == b.file_path@
    &&& a.crate_name@ == b.crate_name@
    &&& a.module_prefix@ == b.module_prefix@
    &&& a.tree == b.tree
}

/// The two sequences hold the same files in the same order.
pub open spec fn same_sources(a: Seq<SourceFile>, b: Seq<SourceFile>) -> bool {
    &&& a.len() == b.len()
    &&& forall|i: int| 0 <= i < a.len() ==> #[trigger] same_source(a[i], b[i])
}

proof fn lemma_same_sources(a: Seq<SourceFile>, b: Seq<SourceFile>)
    requires
        same_sources(a, b),
    ensures
        all_functions(a) == all_functions(b),
        all_types(a) == all_types(b),
        all_deps(a) == all_deps(b),
        all_refs(a) == all_refs(b),
    decreases a.len(),
{
    if a.len() > 0 {
        assert(same_sources(a.drop_last(), b.drop_last())) by {
            assert forall|i: int| 0 <= i < a.len() - 1 implies #[trigger] same_source(
                a.drop_last()[i],
                b.drop_last()[i],
            ) by {
                assert(same_source(a[i], b[i]));
            }
        }
        lemma_same_sources(a.drop_last(), b.drop_last());
        assert(same_source(a.last(), b.last()));
    }
}

/// Reads one file for analysis: `None` when its text is longer than
/// `MAX_ANALYZED_FILE_BYTES` bytes, when it does not parse, or when a row of
/// its tree is `usize::MAX`; else the file with its syntax tree.
pub fn parse_source_text(t: &SourceText) -> (r: Option<SourceFile>)
    ensures
        match r {
            Some(f) => analyzed_tree(t.content@) == Some(f.tree) && read_as(f, *t, f.tree),
            None => analyzed_tree(t.content@) is None,
        },
{
    if !within_analysis_size(t.content.as_str().len()) {
        return None;
    }
    match parse_rust_source(t.content.as_str()) {
        Some(tree) => {
            if rows_fit_exec(&tree) {
                Some(
                    SourceFile {
                        file_path: t.file_path.clone(),
                        crate_name: t.crate_name.clone(),
                        module_prefix: t.module_prefix.clone(),
                        tree,
                    },
                )
            } else {
                None
            }
        },
        None => None,
    }
}

/// Analyses the files of a workspace from their texts: each file within the
/// size limit whose text parses, with rows that fit, is read for its symbols
/// and references (the others are left out), and every reference is resolved
/// as `analyze_sources` does for the parsed files in order.
pub fn analyze_contents(files: &[SourceText]) -> (r: (WorkspaceSnapshot, ResolutionStats))
    ensures
        function_models(r.0.functions@) == all_functions(parsed_sources(files@)),
        type_models(r.0.types@) == all_types(parsed_sources(files@)),
        dependency_models(r.0.dependencies@) == all_deps(parsed_sources(files@)),
        registry_of(r.0.function_registry, r.0.functions@),
        r.0.function_references@.len() == all_refs(parsed_sources(files@)).len(),
        forall|i: int|
            0 <= i < all_refs(parsed_sources(files@)).len() ==> resolved_model(
                r.0.function_registry,
                all_refs(parsed_sources(files@))[i],
                #[trigger] r.0.function_references@[i]@,
            ),
        r.1.total_references == all_refs(parsed_sources(files@)).len(),
        r.1.successful_resolutions == all_refs(parsed_sources(files@)).len(),
        r.1.failed_resolutions == 0,
        r.1.cross_crate_detected_syntax == count_cross(all_refs(parsed_sources(files@))),
        r.1.cross_crate_detected_resolution == count_became_cross(
            all_refs(parsed_sources(files@)),
            reference_models(r.0.function_references@),
        ),
{
    let mut sources: Vec<SourceFile> = Vec::new();
    let mut i: usize = 0;
    while i < files.len()
        invariant
            i <= files@.len(),
            same_sources(sources@, parsed_sources(files@.take(i as int))),
            forall|j: int| 0 <= j < sources@.len() ==> #[trigger] rows_fit(sources@[j].tree),
        decreases files@.len() - i,
    {
        let ghost before = sources@;
        proof {
            let t = files@.take(i + 1);
            assert(t.drop_last() =~= files@.take(i as int));
            assert(t.last() == files@[i as int]);
        }
        match parse_source_text(&files[i]) {
            Some(f) => {
                sources.push(f);
                proof {
                    let p = parsed_sources(files@.take(i + 1));
                    let q = parsed_sources(files@.take(i as int));
                    assert forall|k: int| 0 <= k < sources@.len() implies #[trigger] same_source(
                        sources@[k],
                        p[k],
                    ) by {
                        if k < before.len() {
                            assert(same_source(before[k], q[k]));
                        }
                    }
                }
            },
            None => {},
        }
        i = i + 1;
    }
    proof {
        assert(files@.take(files@.len() as int) =~= files@);
    }
    let r = analyze_sources(sources.as_slice());
    proof {
        lemma_same_sources(sources@, parsed_sources(files@));
    }
    r
}

/// The crates that cross-crate references of `s` are made from.
pub open spec fn calling_crates(s: Seq<FunctionReference>) -> Set<Seq<char>> {
    Set::new(
        |c: Seq<char>|
            exists|i: int|
                0 <= i < s.len() && s[i].cross_crate && #[trigger] call_crate(
                    s[i].calling_function@,
                ) == c,
    )
}

/// The crates that cross-crate references of `s` point into.
pub open spec fn called_crates(s: Seq<FunctionReference>) -> Set<Seq<char>> {
    Set::new(
        |c: Seq<char>|
            exists|i: int|
                0 <= i < s.len() && s[i].cross_crate && #[trigger] call_crate(
                    s[i].target_function@,
                ) == c,
    )
}

/// A cross-crate call from the core trading crate into the Binance exchange
/// adapter: the layer violation that the analysis looks for.
pub open spec fn is_core_to_exchange_call(r: FunctionReference) -> bool {
    &&& r.cross_crate
    &&& contains_seq(r.target_function@, "trading_exchanges"@)
    &&& contains_seq(r.target_function@, "binance"@)
    &&& contains_seq(r.calling_function@, "trading_core"@)
}

/// Counts over the references of an analysis.
#[derive(Debug, Clone, Copy)]
pub struct AnalysisStatistics {
    /// Cross-crate references outside test code.
    pub final_cross_crate_count: usize,
    /// Cross-crate references in test code.
    pub test_cross_crate_count: usize,
    /// Distinct crates that make cross-crate calls.
    pub crates_calling: usize,
    /// Distinct crates that receive cross-crate calls.
    pub crates_called: usize,
    /// Whether a call from the core crate into the exchange adapter was seen.
    pub layer_violation_detected: bool,
}

/// Counts the cross-crate references of an analysis, outside and inside test
/// code, the distinct crates on each side of them, and whether one of them goes
/// from the core crate into the exchange adapter.
pub fn analysis_statistics(refs: &[FunctionReference]) -> (st: AnalysisStatistics)
    ensures
        st.final_cross_crate_count == count_refs(
            refs@,
            |r: FunctionReference| r.cross_crate && !r.from_test,
        ),
        st.test_cross_crate_count == count_refs(
            refs@,
            |r: FunctionReference| r.cross_crate && r.from_test,
        ),
        calling_crates(refs@).finite(),
        called_crates(refs@).finite(),
        st.crates_calling == calling_crates(refs@).len(),
        st.crates_called == called_crates(refs@).len(),
        st.layer_violation_detected == exists|i: int|
            0 <= i < refs@.len() && is_core_to_exchange_call(#[trigger] refs@[i]),
{
    let ghost p_final = |r: FunctionReference| r.cross_crate && !r.from_test;
    let ghost p_test = |r: FunctionReference| r.cross_crate && r.from_test;
    let mut final_count: usize = 0;
    let mut test_count: usize = 0;
    let mut calling: NameTable<()> = NameTable::new();
    let mut called: NameTable<()> = NameTable::new();
    let mut violation = false;
    let mut i: usize = 0;
    proof {
        assert(calling@.dom() =~= calling_crates(refs@.take(0)));
        assert(called@.dom() =~= called_crates(refs@.take(0)));
    }
    while i < refs.len()
        invariant
            i <= refs@.len(),
            forall|x: FunctionReference| #[trigger] p_final(x) == (x.cross_crate && !x.from_test),
            forall|x: FunctionReference| #[trigger] p_test(x) == (x.cross_crate && x.from_test),
            final_count == count_refs(refs@.take(i as int), p_final),
            test_count == count_refs(refs@.take(i as int), p_test),
            final_count + test_count <= i,
            calling@.dom() == calling_crates(refs@.take(i as int)),
            called@.dom() == called_crates(refs@.take(i as int)),
            violation == exists|j: int| 0 <= j < i && is_core_to_exchange_call(#[trigger] refs@[j]),
        decreases refs@.len() - i,
    {
        let r = &refs[i];
        let ghost t = refs@.take(i + 1);
        proof {
            assert(t.drop_last() =~= refs@.take(i as int));
            assert(t.last() == refs@[i as int]);
        }
        if r.cross_crate {
            if r.from_test {
                test_count = test_count + 1;
            } else {
                final_count = final_count + 1;
            }
            let from = extract_crate_name_from_qualified(r.calling_function.as_str());
            let to = extract_crate_name_from_qualified(r.target_function.as_str());
            let ghost (from_v, to_v) = (from@, to@);
            calling.insert(from, ());
            called.insert(to, ());
            proof {
                assert forall|c: Seq<char>| calling_crates(t).contains(c) <==> calling@.dom().contains(c) by {
                    if calling_crates(t).contains(c) {
                        let j = choose|j: int|
                            0 <= j < t.len() && t[j].cross_crate && #[trigger] call_crate(
                                t[j].calling_function@,
                            ) == c;
                        if j < i {
                            assert(refs@.take(i as int)[j] == t[j]);
                            assert(calling_crates(refs@.take(i as int)).contains(c));
                        }
                    }
                    if calling@.dom().contains(c) && c != from_v {
                        assert(calling_crates(refs@.take(i as int)).contains(c));
                        let j = choose|j: int|
                            0 <= j < i && refs@.take(i as int)[j].cross_crate
                                && #[trigger] call_crate(
                                refs@.take(i as int)[j].calling_function@,
                            ) == c;
                        assert(t[j] == refs@.take(i as int)[j]);
                    }
                    if c == from_v {
                        assert(t[i as int].cross_crate && call_crate(t[i as int].calling_function@) == c);
                    }
                }
                assert(calling@.dom() =~= calling_crates(t));
                assert forall|c: Seq<char>| called_crates(t).contains(c) <==> called@.dom().contains(c) by {
                    if called_crates(t).contains(c) {
                        let j = choose|j: int|
                            0 <= j < t.len() && t[j].cross_crate && #[trigger] call_crate(
                                t[j].target_function@,
                            ) == c;
                        if j < i {
                            assert(refs@.take(i as int)[j] == t[j]);
                            assert(called_crates(refs@.take(i as int)).contains(c));
                        }
                    }
                    if called@.dom().contains(c) && c != to_v {
                        assert(called_crates(refs@.take(i as int)).contains(c));
                        let j = choose|j: int|
                            0 <= j < i && refs@.take(i as int)[j].cross_crate
                                && #[trigger] call_crate(
                                refs@.take(i as int)[j].target_function@,
                            ) == c;
                        assert(t[j] == refs@.take(i as int)[j]);
                    }
                    if c == to_v {
                        assert(t[i as int].cross_crate && call_crate(t[i as int].target_function@) == c);
                    }
                }
                assert(called@.dom() =~= called_crates(t));
            }
            if str_contains(r.target_function.as_str(), "trading_exchanges") && str_contains(
                r.target_function.as_str(),
                "binance",
            ) && str_contains(r.calling_function.as_str(), "trading_core") {
                violation = true;
            }
        } else {
            proof {
                assert forall|c: Seq<char>| calling_crates(t).contains(c) <==> calling_crates(refs@.take(i as int)).contains(c) by {
                    if calling_crates(t).contains(c) {
                        let j = choose|j: int|
                            0 <= j < t.len() && t[j].cross_crate && #[trigger] call_crate(
                                t[j].calling_function@,
                            ) == c;
                        assert(refs@.take(i as int)[j] == t[j]);
                    }
                    if calling_crates(refs@.take(i as int)).contains(c) {
                        let j = choose|j: int|
                            0 <= j < i && refs@.take(i as int)[j].cross_crate
                                && #[trigger] call_crate(
                                refs@.take(i as int)[j].calling_function@,
                            ) == c;
                        assert(t[j] == refs@.take(i as int)[j]);
                    }
                }
                assert(calling_crates(t) =~= calling_crates(refs@.take(i as int)));
                assert forall|c: Seq<char>| called_crates(t).contains(c) <==> called_crates(refs@.take(i as int)).contains(c) by {
                    if called_crates(t).contains(c) {
                        let j = choose|j: int|
                            0 <= j < t.len() && t[j].cross_crate && #[trigger] call_crate(
                                t[j].target_function@,
                            ) == c;
                        assert(refs@.take(i as int)[j] == t[j]);
                    }
                    if called_crates(refs@.take(i as int)).contains(c) {
                        let j = choose|j: int|
                            0 <= j < i && refs@.take(i as int)[j].cross_crate
                                && #[trigger] call_crate(
                                refs@.take(i as int)[j].target_function@,
                            ) == c;
                        assert(t[j] == refs@.take(i as int)[j]);
                    }
                }
                assert(called_crates(t) =~= called_crates(refs@.take(i as int)));
            }
        }
        proof {
            if is_core_to_exchange_call(refs@[i as int]) {
                assert(violation);
            }
            assert(p_final(refs@[i as int]) == (refs@[i as int].cross_crate
                && !refs@[i as int].from_test));
            assert(p_test(refs@[i as int]) == (refs@[i as int].cross_crate
                && refs@[i as int].from_test));
            assert(count_refs(t, p_final) == count_refs(refs@.take(i as int), p_final) + if p_final(
                refs@[i as int],
            ) {
                1int
            } else {
                0int
            });
            assert(count_refs(t, p_test) == count_refs(refs@.take(i as int), p_test) + if p_test(
                refs@[i as int],
            ) {
                1int
            } else {
                0int
            });
        }
        i = i + 1;
    }
    proof {
        assert(refs@.take(refs@.len() as int) =~= refs@);
    }
    let n_calling = calling.len();
    let n_called = called.len();
    AnalysisStatistics {
        final_cross_crate_count: final_count,
        test_cross_crate_count: test_count,
        crates_calling: n_calling,
        crates_called: n_called,
        layer_violation_detected: violation,
    }
}

/// The text after the last `:` of a context (all of it when it has none).
pub open spec fn last_colon_piece(s: Seq<char>) -> Seq<char> {
    let k = rfind(s, ":"@);
    if k < 0 {
        s
    } else {
        s.skip(k + 1)
    }
}

/// A spawn is taken for test code when its context or its file mentions
/// tests, or when the function it sits in (the context after its last `:`)
/// is named like a test, a setup or a mock.
pub open spec fn spawn_in_test_context(context: Seq<char>, file: Seq<char>) -> bool {
    let f = last_colon_piece(context);
    ||| contains_seq(context, "test"@)
    ||| contains_seq(file, "test"@)
    ||| contains_seq(file, "/tests/"@)
    ||| starts_with(f, "test_"@)
    ||| ends_with(f, "_test"@)
    ||| starts_with(f, "setup_"@)
    ||| contains_seq(f, "mock"@)
}

/// Whether an actor spawn in `context` (a path ending in the enclosing
/// function's name) within the file at `file_path` belongs to test code.
pub fn is_spawn_in_test_context_logic(context: &str, file_path: &str) -> (b: bool)
    ensures
        b == spawn_in_test_context(context@, file_path@),
{
    if str_contains(context, "test") {
        return true;
    }
    if str_contains(file_path, "test") || str_contains(file_path, "/tests/") {
        return true;
    }
    let cs = chars_of(context);
    proof {
        reveal_strlit(":");
        lemma_rfind(context@, ":"@);
    }
    let colon = chars_of(":");
    let name = match rfind_exec(cs.as_slice(), colon.as_slice()) {
        Some(k) => {
            assert(occurs_at(context@, ":"@, k as int));
            let n = cs.len();
            string_from(subvec(cs.as_slice(), k + 1, n).as_slice())
        },
        None => string_from(cs.as_slice()),
    };
    assert(name@ == last_colon_piece(context@));
    str_starts_with(name.as_str(), "test_") || str_ends_with(name.as_str(), "_test")
        || str_starts_with(name.as_str(), "setup_") || str_contains(name.as_str(), "mock")
}

/// A crate of the workspace, as discovery reports it.
#[derive(Debug, Clone)]
pub struct WorkspaceCrate {
    pub name: String,
    pub path: String,
    pub is_workspace_member: bool,
}

/// The crates an analysis covers: the workspace members when the
/// configuration limits it to them, otherwise all, in discovery order.
pub open spec fn crates_to_analyze(members_only: bool, cs: Seq<WorkspaceCrate>) -> Seq<WorkspaceCrate>
    decreases cs.len(),
{
    if cs.len() == 0 {
        Seq::empty()
    } else {
        let rest = crates_to_analyze(members_only, cs.drop_last());
        if !members_only || cs.last().is_workspace_member {
            rest.push(cs.last())
        } else {
            rest
        }
    }
}

fn copy_crate(c: &WorkspaceCrate) -> (r: WorkspaceCrate)
    ensures
        r == *c,
{
    WorkspaceCrate {
        name: c.name.clone(),
        path: c.path.clone(),
        is_workspace_member: c.is_workspace_member,
    }
}

/// The crates an analysis covers (see `crates_to_analyze`).
pub fn select_crates_to_analyze(config: &Config, crates: &Vec<WorkspaceCrate>) -> (r: Vec<
    WorkspaceCrate,
>)
    ensures
        r@ == crates_to_analyze(config.analysis.workspace_members_only, crates@),
{
    let members_only = config.analysis.workspace_members_only;
    let mut r: Vec<WorkspaceCrate> = Vec::new();
    for i in 0..crates.len()
        invariant
            members_only == config.analysis.workspace_members_only,
            r@ == crates_to_analyze(members_only, crates@.take(i as int)),
    {
        proof {
            assert(crates@.take(i + 1).drop_last() =~= crates@.take(i as int));
        }
        let c = &crates[i];
        if !members_only || c.is_workspace_member {
            r.push(copy_crate(c));
        }
    }
    assert(crates@.take(crates@.len() as int) =~= crates@);
    r
}

} // verus!
