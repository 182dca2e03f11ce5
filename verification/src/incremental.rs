//! Incremental re-analysis: which file events matter, when a file must be read
//! again, the state kept per file and per crate, and the graph statements that
//! drop a file's symbols.
//!
//! Watching the file system, reading files and talking to the graph database
//! happen in the application; it hands file contents, timestamps and query
//! results here as plain values.
use vstd::prelude::*;

use crate::paths::file_name;
use crate::paths::file_name_of;
use crate::table::NameTable;
use crate::text::chars_of;
use crate::text::chars_eq;
use crate::text::lemma_rfind;
use crate::text::rfind;
use crate::text::rfind_exec;
use crate::text::str_eq;
use crate::text::subvec;
use crate::workspace::views_of;

verus! {

/// The BLAKE3 digest of `content` in lowercase hexadecimal.
pub uninterp spec fn blake3_hex(content: Seq<u8>) -> Seq<char>;

/// The lowercase hexadecimal digits.
pub open spec fn is_lower_hex(c: char) -> bool {
    ('0' <= c && c <= '9') || ('a' <= c && c <= 'f')
}

/// `blake3::Hasher` fed with `content`, finalised and written out with
/// `Hash::to_hex`: the digest named `blake3_hex`, 64 lowercase hexadecimal
/// digits (two per byte of the 32-byte output, as `to_hex` writes them).
#[verifier::external_body]
fn blake3_hex_digest(content: &[u8]) -> (r: String)
    ensures
        r@ == blake3_hex(content@),
        r@.len() == 64,
        forall|i: int| 0 <= i < r@.len() ==> is_lower_hex(#[trigger] r@[i]),
{
    let mut hasher = blake3::Hasher::new();
    hasher.update(content);
    hasher.finalize().to_hex().to_string()
}

/// The content hash under which a file's state is kept.
pub fn calculate_content_hash(content: &[u8]) -> (r: String)
    ensures
        r@ == blake3_hex(content@),
        r@.len() == 64,
        forall|i: int| 0 <= i < r@.len() ==> is_lower_hex(#[trigger] r@[i]),
{
    blake3_hex_digest(content)
}

/// A point in time as seconds and nanoseconds since the Unix epoch.
#[derive(Debug, Clone, Copy, PartialEq, Eq, Structural)]
pub struct Timestamp {
    pub secs: u64,
    pub nanos: u32,
}

impl Timestamp {
    /// The Unix epoch.
    pub fn epoch() -> (t: Timestamp)
        ensures
            t.secs == 0 && t.nanos == 0,
    {
        Timestamp { secs: 0, nanos: 0 }
    }

    /// Nanoseconds since the epoch.
    pub open spec fn total_nanos(self) -> int {
        self.secs * 1_000_000_000 + self.nanos
    }

    /// Whether `self` is not earlier than `other`, comparing seconds first.
    pub open spec fn not_before(self, other: Timestamp) -> bool {
        self.secs > other.secs || (self.secs == other.secs && self.nanos >= other.nanos)
    }

    /// Whether `self` is not earlier than `other`.
    pub fn is_not_before(&self, other: &Timestamp) -> (b: bool)
        ensures
            b == self.not_before(*other),
    {
        self.secs > other.secs || (self.secs == other.secs && self.nanos >= other.nanos)
    }
}

#[derive(Debug)]
pub struct FileState {
    pub path: String,
    pub hash: String,
    pub last_modified: Timestamp,
    pub symbols_extracted: usize,
    pub functions: NameTable<()>,
    pub types: NameTable<()>,
    pub last_analyzed: Timestamp,
}

#[derive(Debug)]
pub struct IncrementalState {
    pub files: NameTable<FileState>,
    pub crate_dependencies: NameTable<NameTable<()>>,
    pub last_full_analysis: Timestamp,
}

#[derive(Debug)]
pub struct FileChange {
    pub path: String,
    pub change_type: ChangeType,
    pub timestamp: Timestamp,
}

#[derive(Debug, Clone)]
pub enum ChangeType {
    Created,
    Modified,
    Deleted,
    Renamed { from: String, to: String },
}

#[derive(Debug, Clone, Copy)]
pub struct IncrementalStatistics {
    pub tracked_files: usize,
    pub total_symbols: usize,
    pub last_update: Timestamp,
    pub last_full_analysis: Timestamp,
    pub crates_tracked: usize,
}

/// The extension of a file name: the part after its last `.`, when that `.`
/// is not its first character (`Path::extension`).
pub open spec fn extension_of_name(name: Seq<char>) -> Option<Seq<char>> {
    let d = rfind(name, "."@);
    if d <= 0 {
        None
    } else {
        Some(name.skip(d + 1))
    }
}

/// The path names a Rust source file: its extension is `rs`.
pub open spec fn is_rust_path(p: Seq<char>) -> bool {
    match file_name(p) {
        Some(n) => extension_of_name(n) == Some("rs"@),
        None => false,
    }
}

fn is_rust_path_exec(p: &str) -> (b: bool)
    ensures
        b == is_rust_path(p@),
{
    match file_name_of(p) {
        None => false,
        Some(n) => {
            let dot = chars_of(".");
            proof {
                lemma_rfind(n@, "."@);
                reveal_strlit(".");
            }
            match rfind_exec(n.as_slice(), dot.as_slice()) {
                None => false,
                Some(d) => {
                    if d == 0 {
                        false
                    } else {
                        let nl = n.len();
                        assert(d + 1 <= nl);
                        let ext = subvec(n.as_slice(), d + 1, nl);
                        let rs = chars_of("rs");
                        assert(ext@ =~= n@.skip(d + 1));
                        chars_eq(ext.as_slice(), rs.as_slice())
                    }
                },
            }
        },
    }
}

/// Whether any of the paths names a Rust source file.
pub fn is_rust_file(paths: &[String]) -> (b: bool)
    ensures
        b == exists|i: int| 0 <= i < paths@.len() && is_rust_path(#[trigger] paths@[i]@),
{
    let mut i: usize = 0;
    while i < paths.len()
        invariant
            i <= paths@.len(),
            forall|j: int| 0 <= j < i ==> !is_rust_path(#[trigger] paths@[j]@),
        decreases paths@.len() - i,
    {
        if is_rust_path_exec(paths[i].as_str()) {
            return true;
        }
        i = i + 1;
    }
    false
}

/// What happened to the files of a watched directory.
#[derive(Debug, Clone, Copy, PartialEq, Eq, Structural)]
pub enum FileEventKind {
    Create,
    Modify,
    Remove,
    Other,
}

/// Whether the paths of a file event are passed on for re-analysis: the event
/// creates, modifies or removes files, and one of them is a Rust source file.
pub fn should_forward_event(kind: FileEventKind, paths: &[String]) -> (b: bool)
    ensures
        b == (kind != FileEventKind::Other && exists|i: int|
            0 <= i < paths@.len() && is_rust_path(#[trigger] paths@[i]@)),
{
    if !is_rust_file(paths) {
        return false;
    }
    match kind {
        FileEventKind::Create | FileEventKind::Modify | FileEventKind::Remove => true,
        FileEventKind::Other => false,
    }
}

/// A set of names built from a list.
pub fn name_set(names: &[String]) -> (t: NameTable<()>)
    ensures
        forall|k: Seq<char>| #[trigger] t@.contains_key(k) <==> views_of(names@).contains(k),
{
    let mut t: NameTable<()> = NameTable::new();
    let mut i: usize = 0;
    while i < names.len()
        invariant
            i <= names@.len(),
            forall|k: Seq<char>| #[trigger]
                t@.contains_key(k) <==> views_of(names@).take(i as int).contains(k),
        decreases names@.len() - i,
    {
        t.insert(names[i].clone(), ());
        proof {
            let vs = views_of(names@);
            assert forall|k: Seq<char>| #[trigger]
                t@.contains_key(k) <==> vs.take(i + 1).contains(k) by {
                if vs.take(i + 1).contains(k) && k != names@[i as int]@ {
                    let j = choose|j: int| 0 <= j < i + 1 && #[trigger] vs.take(i + 1)[j] == k;
                    assert(vs.take(i as int)[j] == k);
                }
                if vs.take(i as int).contains(k) {
                    let j = choose|j: int| 0 <= j < i && #[trigger] vs.take(i as int)[j] == k;
                    assert(vs.take(i + 1)[j] == k);
                }
                assert(vs.take(i + 1)[i as int] == names@[i as int]@);
            }
        }
        i = i + 1;
    }
    assert(views_of(names@).take(names@.len() as int) =~= views_of(names@));
    t
}

/// The sum of the symbol counts of the files, in table order.
pub open spec fn symbol_total(files: Seq<(Seq<char>, FileState)>) -> int
    decreases files.len(),
{
    if files.len() == 0 {
        0
    } else {
        symbol_total(files.drop_last()) + files.last().1.symbols_extracted
    }
}

/// The latest `last_analyzed` of the files, or the epoch when there are none.
pub open spec fn latest_analysis(files: Seq<(Seq<char>, FileState)>) -> Timestamp
    decreases files.len(),
{
    if files.len() == 0 {
        Timestamp { secs: 0, nanos: 0 }
    } else {
        let rest = latest_analysis(files.drop_last());
        let t = files.last().1.last_analyzed;
        if rest.not_before(t) {
            rest
        } else {
            t
        }
    }
}

/// The graph statements that remove what was recorded from the file `file`:
/// its calls, type uses, functions, types and modules.
pub open spec fn deletion_queries(file: Seq<char>) -> Seq<Seq<char>> {
    seq![
        "MATCH ()-[r:CALLS]->() WHERE r.file = '"@ + file + "' DELETE r"@,
        "MATCH ()-[r:USES_TYPE]->() WHERE r.file = '"@ + file + "' DELETE r"@,
        "MATCH (f:Function) WHERE f.file = '"@ + file + "' DETACH DELETE f"@,
        "MATCH (t:Type) WHERE t.file = '"@ + file + "' DETACH DELETE t"@,
        "MATCH (m:Module) WHERE m.file = '"@ + file + "' DETACH DELETE m"@,
    ]
}

/// The graph statements that remove what was recorded from the file at
/// `file_path`.
pub fn file_deletion_queries(file_path: &str) -> (q: Vec<String>)
    ensures
        views_of(q@) == deletion_queries(file_path@),
{
    let q = vec![
        String::from_str("MATCH ()-[r:CALLS]->() WHERE r.file = '").concat(file_path).concat(
            "' DELETE r",
        ),
        String::from_str("MATCH ()-[r:USES_TYPE]->() WHERE r.file = '").concat(file_path).concat(
            "' DELETE r",
        ),
        String::from_str("MATCH (f:Function) WHERE f.file = '").concat(file_path).concat(
            "' DETACH DELETE f",
        ),
        String::from_str("MATCH (t:Type) WHERE t.file = '").concat(file_path).concat(
            "' DETACH DELETE t",
        ),
        String::from_str("MATCH (m:Module) WHERE m.file = '").concat(file_path).concat(
            "' DETACH DELETE m",
        ),
    ];
    assert(views_of(q@) =~= deletion_queries(file_path@));
    q
}

/// The graph query that lists the crates `crate_name` depends on.
pub fn crate_dependency_query(crate_name: &str) -> (q: String)
    ensures
        q@ == "MATCH (c:Crate {name: '"@ + crate_name@
            + "'})\n             MATCH (c)-[:DEPENDS_ON]->(dep:Crate)\n             RETURN dep.name as dependency"@,
{
    String::from_str("MATCH (c:Crate {name: '").concat(crate_name).concat(
        "'})\n             MATCH (c)-[:DEPENDS_ON]->(dep:Crate)\n             RETURN dep.name as dependency",
    )
}

/// A file must be analysed again when it is not tracked or its recorded
/// content hash differs from `hash`.
pub open spec fn update_needed(files: Map<Seq<char>, FileState>, path: Seq<char>, hash: Seq<char>) -> bool {
    !files.contains_key(path) || files[path].hash@ != hash
}

/// What is recorded of a file is what the next check reads: right after a file
/// is recorded it needs no update for the hash it was recorded with, and needs
/// one for any other hash; after it is removed it needs one for every hash;
/// recording or removing a file changes nothing for another file.
pub proof fn lemma_record_then_check(
    files: Map<Seq<char>, FileState>,
    state: FileState,
    other_path: Seq<char>,
    hash: Seq<char>,
)
    ensures
        !update_needed(files.insert(state.path@, state), state.path@, state.hash@),
        hash != state.hash@ ==> update_needed(files.insert(state.path@, state), state.path@, hash),
        update_needed(files.remove(state.path@), state.path@, hash),
        other_path != state.path@ ==> update_needed(files.insert(state.path@, state), other_path, hash)
            == update_needed(files, other_path, hash) && update_needed(
            files.remove(state.path@),
            other_path,
            hash,
        ) == update_needed(files, other_path, hash),
{
}

impl IncrementalState {
    /// No files, no crates, and a full analysis at the epoch.
    pub fn new() -> (s: Self)
        ensures
            s.files@.dom().len() == 0,
            s.files.spec_entries().len() == 0,
            s.crate_dependencies@.dom().len() == 0,
            s.last_full_analysis == (Timestamp { secs: 0, nanos: 0 }),
    {
        IncrementalState {
            files: NameTable::new(),
            crate_dependencies: NameTable::new(),
            last_full_analysis: Timestamp::epoch(),
        }
    }

    /// A file must be analysed again when it is not tracked or its content hash
    /// changed.
    pub fn needs_update(&self, file_path: &str, file_hash: &str) -> (b: bool)
        ensures
            b == update_needed(self.files@, file_path@, file_hash@),
    {
        match self.files.get(file_path) {
            Some(existing) => !str_eq(existing.hash.as_str(), file_hash),
            None => true,
        }
    }

    /// A tracked file is out of date when it no longer exists (`None`) or its
    /// current content hash differs from the one recorded.
    pub fn is_outdated(&self, file_path: &str, current_hash: Option<&str>) -> (b: bool)
        requires
            self.files@.contains_key(file_path@),
        ensures
            b == match current_hash {
                Some(h) => self.files@[file_path@].hash@ != h@,
                None => true,
            },
    {
        match current_hash {
            Some(h) => self.needs_update(file_path, h),
            None => true,
        }
    }

    /// Records the state of a file that was just analysed, replacing what was
    /// kept for it.
    pub fn record_file(&mut self, state: FileState)
        ensures
            final(self).files@ == old(self).files@.insert(state.path@, state),
            final(self).crate_dependencies@ == old(self).crate_dependencies@,
            final(self).last_full_analysis == old(self).last_full_analysis,
    {
        let key = state.path.clone();
        self.files.insert(key, state);
    }

    /// Forgets a file that was removed, giving back what was kept for it.
    pub fn remove_file(&mut self, file_path: &str) -> (r: Option<FileState>)
        ensures
            final(self).files@ == old(self).files@.remove(file_path@),
            r is Some <==> old(self).files@.contains_key(file_path@),
            r matches Some(s) ==> s == old(self).files@[file_path@],
            final(self).crate_dependencies@ == old(self).crate_dependencies@,
            final(self).last_full_analysis == old(self).last_full_analysis,
    {
        self.files.remove(file_path)
    }

    /// Records the crates that `crate_name` depends on.
    pub fn set_crate_dependencies(&mut self, crate_name: &str, dependencies: &[String])
        ensures
            final(self).crate_dependencies@.dom() == old(self).crate_dependencies@.dom().insert(
                crate_name@,
            ),
            forall|k: Seq<char>| #[trigger]
                final(self).crate_dependencies@[crate_name@]@.contains_key(k) <==> views_of(
                    dependencies@,
                ).contains(k),
            forall|c: Seq<char>|
                c != crate_name@ && #[trigger] old(self).crate_dependencies@.contains_key(c)
                    ==> final(self).crate_dependencies@[c] == old(self).crate_dependencies@[c],
            final(self).files@ == old(self).files@,
            final(self).last_full_analysis == old(self).last_full_analysis,
    {
        let deps = name_set(dependencies);
        self.crate_dependencies.insert(String::from_str(crate_name), deps);
    }

    /// Forgets every file and crate, as a full re-analysis starts.
    pub fn clear(&mut self)
        ensures
            final(self).files@ == Map::<Seq<char>, FileState>::empty(),
            final(self).crate_dependencies@ == Map::<Seq<char>, NameTable<()>>::empty(),
            final(self).last_full_analysis == old(self).last_full_analysis,
    {
        self.files.clear();
        self.crate_dependencies.clear();
    }

    /// The numbers of tracked files, symbols and crates, the latest analysis of
    /// a file (the epoch when none is tracked) and the last full analysis.
    pub fn statistics(&self) -> (st: IncrementalStatistics)
        requires
            symbol_total(self.files.spec_entries()) <= usize::MAX,
        ensures
            st.tracked_files == self.files@.dom().len(),
            st.total_symbols == symbol_total(self.files.spec_entries()),
            st.last_update == latest_analysis(self.files.spec_entries()),
            st.last_full_analysis == self.last_full_analysis,
            st.crates_tracked == self.crate_dependencies@.dom().len(),
    {
        let n = self.files.len();
        let ghost e = self.files.spec_entries();
        let mut total: usize = 0;
        let mut latest = Timestamp::epoch();
        let mut i: usize = 0;
        proof {
            lemma_symbol_total_prefix(e, 0);
        }
        while i < n
            invariant
                n == e.len(),
                e == self.files.spec_entries(),
                i <= n,
                symbol_total(e) <= usize::MAX,
                total == symbol_total(e.take(i as int)),
                latest == latest_analysis(e.take(i as int)),
            decreases n - i,
        {
            let (_, f) = self.files.entry_at(i);
            proof {
                assert(e.take(i + 1).drop_last() =~= e.take(i as int));
                assert(e.take(i + 1).last() == e[i as int]);
                lemma_symbol_total_prefix(e, i + 1);
            }
            total = total + f.symbols_extracted;
            if !latest.is_not_before(&f.last_analyzed) {
                latest = f.last_analyzed;
            }
            i = i + 1;
        }
        assert(e.take(n as int) =~= e);
        IncrementalStatistics {
            tracked_files: n,
            total_symbols: total,
            last_update: latest,
            last_full_analysis: self.last_full_analysis,
            crates_tracked: self.crate_dependencies.len(),
        }
    }
}

proof fn lemma_symbol_total_prefix(e: Seq<(Seq<char>, FileState)>, k: int)
    requires
        0 <= k <= e.len(),
    ensures
        0 <= symbol_total(e.take(k)) <= symbol_total(e),
    decreases e.len(),
{
    if k == e.len() {
        assert(e.take(k) =~= e);
        lemma_symbol_total_nonneg(e);
    } else {
        lemma_symbol_total_prefix(e.drop_last(), k);
        assert(e.drop_last().take(k) =~= e.take(k));
    }
}

proof fn lemma_symbol_total_nonneg(e: Seq<(Seq<char>, FileState)>)
    ensures
        symbol_total(e) >= 0,
    decreases e.len(),
{
    if e.len() > 0 {
        lemma_symbol_total_nonneg(e.drop_last());
    }
}

} // verus!
