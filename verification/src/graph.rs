//! Decisions taken while the analysis is written into the graph database:
//! how a failure is classified, when a query is retried, when the storage
//! mode is switched, how each call or message send becomes an edge, and how
//! functions found in impl blocks join the function list.
//!
//! The queries themselves are sent by the application; it hands each reply
//! here as plain values and performs what comes back.
use vstd::prelude::*;

use crate::config::Config;
use crate::config::layer_violation;
use crate::text::chars_of;
use crate::text::contains_seq;
use crate::text::first_segment;
use crate::text::join_chars;
use crate::text::join_seq;
use crate::text::lemma_rfind;
use crate::text::lemma_split_nonempty;
use crate::text::occurs_at;
use crate::text::rfind;
use crate::text::rfind_exec;
use crate::text::subvec;
use crate::text::replace_char;
use crate::text::replace_char_exec;
use crate::text::split_chars;
use crate::text::split_seq;
use crate::text::str_contains;
use crate::text::str_eq;
use crate::text::string_from;
use crate::text::views;
use crate::workspace::opt_view;

verus! {

// ---------------------------------------------------------------------------
// Failures
// ---------------------------------------------------------------------------

#[verifier::external_type_specification]
#[verifier::external_body]
pub struct ExNeo4rsError(neo4rs::Error);

/// The text of a database driver error.
///
/// Calls `neo4rs::Error`'s `Display` (through `to_string`); nothing is claimed
/// of the text, which the driver composes from the server's reply.
#[verifier::external_body]
fn driver_error_text(error: &neo4rs::Error) -> (text: String) {
    error.to_string()
}

/// The class of a failed graph operation.
#[derive(Debug, Clone, Copy, PartialEq, Eq, Structural)]
pub enum ErrorCategory {
    Connection,
    Query,
    Transaction,
    ConstraintViolation,
    Timeout,
    Deadlock,
    StorageMode,
    Memory,
    Index,
    SyntheticCall,
}

/// A failed graph operation with the message that describes it.
#[derive(Debug, Clone)]
pub enum MemgraphError {
    Connection(String),
    Query(String),
    Transaction(String),
    ConstraintViolation(String),
    Timeout(String),
    Deadlock(String),
    StorageMode(String),
    Memory(String),
    Index(String),
    SyntheticCallError(String),
}

impl MemgraphError {
    pub open spec fn category(self) -> ErrorCategory {
        match self {
            MemgraphError::Connection(_) => ErrorCategory::Connection,
            MemgraphError::Query(_) => ErrorCategory::Query,
            MemgraphError::Transaction(_) => ErrorCategory::Transaction,
            MemgraphError::ConstraintViolation(_) => ErrorCategory::ConstraintViolation,
            MemgraphError::Timeout(_) => ErrorCategory::Timeout,
            MemgraphError::Deadlock(_) => ErrorCategory::Deadlock,
            MemgraphError::StorageMode(_) => ErrorCategory::StorageMode,
            MemgraphError::Memory(_) => ErrorCategory::Memory,
            MemgraphError::Index(_) => ErrorCategory::Index,
            MemgraphError::SyntheticCallError(_) => ErrorCategory::SyntheticCall,
        }
    }

    pub open spec fn detail(self) -> Seq<char> {
        match self {
            MemgraphError::Connection(m) => m@,
            MemgraphError::Query(m) => m@,
            MemgraphError::Transaction(m) => m@,
            MemgraphError::ConstraintViolation(m) => m@,
            MemgraphError::Timeout(m) => m@,
            MemgraphError::Deadlock(m) => m@,
            MemgraphError::StorageMode(m) => m@,
            MemgraphError::Memory(m) => m@,
            MemgraphError::Index(m) => m@,
            MemgraphError::SyntheticCallError(m) => m@,
        }
    }

    /// The words that introduce the message of each class.
    pub open spec fn heading(c: ErrorCategory) -> Seq<char> {
        match c {
            ErrorCategory::Connection => "Connection error: "@,
            ErrorCategory::Query => "Query execution error: "@,
            ErrorCategory::Transaction => "Transaction error: "@,
            ErrorCategory::ConstraintViolation => "Constraint violation: "@,
            ErrorCategory::Timeout => "Timeout error: "@,
            ErrorCategory::Deadlock => "Deadlock detected: "@,
            ErrorCategory::StorageMode => "Storage mode error: "@,
            ErrorCategory::Memory => "Memory management error: "@,
            ErrorCategory::Index => "Index operation error: "@,
            ErrorCategory::SyntheticCall => "Synthetic call creation error: "@,
        }
    }

    /// The human-readable description: the class's heading, then the message.
    pub fn describe(&self) -> (text: String)
        ensures
            text@ == Self::heading(self.category()) + self.detail(),
    {
        let (heading, detail): (&str, &String) = match self {
            MemgraphError::Connection(m) => ("Connection error: ", m),
            MemgraphError::Query(m) => ("Query execution error: ", m),
            MemgraphError::Transaction(m) => ("Transaction error: ", m),
            MemgraphError::ConstraintViolation(m) => ("Constraint violation: ", m),
            MemgraphError::Timeout(m) => ("Timeout error: ", m),
            MemgraphError::Deadlock(m) => ("Deadlock detected: ", m),
            MemgraphError::StorageMode(m) => ("Storage mode error: ", m),
            MemgraphError::Memory(m) => ("Memory management error: ", m),
            MemgraphError::Index(m) => ("Index operation error: ", m),
            MemgraphError::SyntheticCallError(m) => ("Synthetic call creation error: ", m),
        };
        let text = String::from_str(heading);
        text.concat(detail.as_str())
    }
}

/// Either of two spellings occurs in the message.
pub open spec fn mentions(msg: Seq<char>, a: Seq<char>, b: Seq<char>) -> bool {
    contains_seq(msg, a) || contains_seq(msg, b)
}

/// The class of a failure, from the first rule that its message meets.
pub open spec fn error_category(msg: Seq<char>) -> ErrorCategory {
    if mentions(msg, "Connection"@, "connection"@) {
        ErrorCategory::Connection
    } else if contains_seq(msg, "deadlock"@) {
        ErrorCategory::Deadlock
    } else if mentions(msg, "timeout"@, "Timeout"@) {
        ErrorCategory::Timeout
    } else if mentions(msg, "constraint"@, "Constraint"@) {
        ErrorCategory::ConstraintViolation
    } else if mentions(msg, "Transaction"@, "transaction"@) {
        ErrorCategory::Transaction
    } else if mentions(msg, "STORAGE MODE"@, "storage mode"@) {
        ErrorCategory::StorageMode
    } else if mentions(msg, "memory"@, "Memory"@) {
        ErrorCategory::Memory
    } else if mentions(msg, "index"@, "Index"@) {
        ErrorCategory::Index
    } else {
        ErrorCategory::Query
    }
}

fn mentions_exec(msg: &str, a: &str, b: &str) -> (r: bool)
    ensures
        r == mentions(msg@, a@, b@),
{
    str_contains(msg, a) || str_contains(msg, b)
}

/// Classifies a failure by its message; the message is kept whole.
pub fn categorize_message(msg: String) -> (e: MemgraphError)
    ensures
        e.category() == error_category(msg@),
        e.detail() == msg@,
{
    if mentions_exec(msg.as_str(), "Connection", "connection") {
        MemgraphError::Connection(msg)
    } else if str_contains(msg.as_str(), "deadlock") {
        MemgraphError::Deadlock(msg)
    } else if mentions_exec(msg.as_str(), "timeout", "Timeout") {
        MemgraphError::Timeout(msg)
    } else if mentions_exec(msg.as_str(), "constraint", "Constraint") {
        MemgraphError::ConstraintViolation(msg)
    } else if mentions_exec(msg.as_str(), "Transaction", "transaction") {
        MemgraphError::Transaction(msg)
    } else if mentions_exec(msg.as_str(), "STORAGE MODE", "storage mode") {
        MemgraphError::StorageMode(msg)
    } else if mentions_exec(msg.as_str(), "memory", "Memory") {
        MemgraphError::Memory(msg)
    } else if mentions_exec(msg.as_str(), "index", "Index") {
        MemgraphError::Index(msg)
    } else {
        MemgraphError::Query(msg)
    }
}

/// Classifies a driver error by its text, which is kept whole.
pub fn categorize_error(error: &neo4rs::Error) -> (e: MemgraphError)
    ensures
        e.category() == error_category(e.detail()),
{
    categorize_message(driver_error_text(error))
}

// ---------------------------------------------------------------------------
// Retries
// ---------------------------------------------------------------------------

/// A failure that may pass when the query is sent again.
pub open spec fn transient_message(msg: Seq<char>) -> bool {
    ||| contains_seq(msg, "TransientError"@)
    ||| contains_seq(msg, "conflicting transactions"@)
    ||| contains_seq(msg, "deadlock"@)
    ||| contains_seq(msg, "timeout"@)
}

/// Whether a query that failed with `message`, after `attempt` retries, is sent
/// again: only with retries enabled, for a transient failure, while fewer than
/// `max_attempts` retries were made.
pub fn retry_after_failure(enabled: bool, message: &str, attempt: u32, max_attempts: u32) -> (b:
    bool)
    ensures
        b == (enabled && transient_message(message@) && attempt < max_attempts),
{
    if !enabled {
        return false;
    }
    let transient = str_contains(message, "TransientError") || str_contains(
        message,
        "conflicting transactions",
    ) || str_contains(message, "deadlock") || str_contains(message, "timeout");
    transient && attempt < max_attempts
}

/// A failure caused by two transactions blocking each other.
pub open spec fn deadlock_message(msg: Seq<char>) -> bool {
    contains_seq(msg, "deadlock"@) || contains_seq(msg, "conflicting transactions"@)
}

/// Attempts made at most on a deadlock, the first included.
pub const MAX_DEADLOCK_ATTEMPTS: u32 = 3;

/// `base` doubled `n` times.
pub open spec fn doubled(base: nat, n: nat) -> nat
    decreases n,
{
    if n == 0 {
        base
    } else {
        2 * doubled(base, (n - 1) as nat)
    }
}

/// After the `failures`-th failed attempt of an operation (counting from one),
/// the pause in milliseconds before the next attempt, or `None` when the
/// failure is final: it is no deadlock, or the attempts are used up. The pause
/// is 100 ms doubled once per failure.
pub fn deadlock_retry_delay(message: &str, failures: u32) -> (r: Option<u64>)
    ensures
        r == (if deadlock_message(message@) && failures < MAX_DEADLOCK_ATTEMPTS {
            Some(doubled(100, failures as nat) as u64)
        } else {
            None::<u64>
        }),
{
    let deadlock = str_contains(message, "deadlock") || str_contains(
        message,
        "conflicting transactions",
    );
    if deadlock && failures < MAX_DEADLOCK_ATTEMPTS {
        let mut delay: u64 = 100;
        let mut i: u32 = 0;
        while i < failures
            invariant
                i <= failures < MAX_DEADLOCK_ATTEMPTS,
                delay == doubled(100, i as nat),
                i == 0 ==> delay == 100,
                i == 1 ==> delay == 200,
                i == 2 ==> delay == 400,
            decreases failures - i,
        {
            delay = delay * 2;
            i = i + 1;
        }
        Some(delay)
    } else {
        None
    }
}

// ---------------------------------------------------------------------------
// Storage mode
// ---------------------------------------------------------------------------

/// How the database keeps its data.
#[derive(Debug, Clone, Copy, PartialEq, Eq, Structural)]
pub enum StorageMode {
    InMemoryTransactional,
    InMemoryAnalytical,
}

impl StorageMode {
    pub open spec fn cypher_name(self) -> Seq<char> {
        match self {
            StorageMode::InMemoryTransactional => "IN_MEMORY_TRANSACTIONAL"@,
            StorageMode::InMemoryAnalytical => "IN_MEMORY_ANALYTICAL"@,
        }
    }

    /// The mode's name in the query language.
    pub fn as_cypher(&self) -> (s: &'static str)
        ensures
            s@ == self.cypher_name(),
    {
        match self {
            StorageMode::InMemoryTransactional => "IN_MEMORY_TRANSACTIONAL",
            StorageMode::InMemoryAnalytical => "IN_MEMORY_ANALYTICAL",
        }
    }

    /// Whether the reported current mode already is this one.
    pub fn is_current(&self, reported: Option<&str>) -> (b: bool)
        ensures
            b == match reported {
                Some(r) => contains_seq(r@, self.cypher_name()),
                None => false,
            },
    {
        match reported {
            Some(r) => str_contains(r, self.as_cypher()),
            None => false,
        }
    }
}

/// What asking the database for its storage mode gave.
#[derive(Debug, Clone)]
pub enum StorageProbe {
    /// A row came back naming the mode (`UNKNOWN` when no field named it).
    Mode(String),
    /// The query succeeded with no row.
    NoRow,
    /// The query failed with this message.
    Failed(String),
}

/// Whether a bulk import should first switch to analytical mode: when the
/// database reports a transactional mode, when it answered nothing, and when
/// the question failed for a reason other than one that analytical mode
/// gives.
pub open spec fn switch_needed(probe: StorageProbe) -> bool {
    match probe {
        StorageProbe::Mode(m) => mentions(m@, "TRANSACTIONAL"@, "transactional"@),
        StorageProbe::NoRow => true,
        StorageProbe::Failed(e) => !mentions(e@, "multicommand transaction"@, "not allowed"@),
    }
}

pub fn should_switch_to_analytical(probe: &StorageProbe) -> (b: bool)
    ensures
        b == switch_needed(*probe),
{
    match probe {
        StorageProbe::Mode(m) => mentions_exec(m.as_str(), "TRANSACTIONAL", "transactional"),
        StorageProbe::NoRow => true,
        StorageProbe::Failed(e) => !mentions_exec(
            e.as_str(),
            "multicommand transaction",
            "not allowed",
        ),
    }
}

// ---------------------------------------------------------------------------
// Call edges
// ---------------------------------------------------------------------------

/// A call found by the parser, as the graph writer reads it.
#[derive(Debug, Clone)]
pub struct GraphCall {
    pub caller_id: String,
    pub callee_name: String,
    pub qualified_callee: Option<String>,
    pub from_crate: String,
    pub to_crate: Option<String>,
    pub line: usize,
    pub call_type: String,
    pub cross_crate: bool,
    pub is_synthetic: bool,
}

/// How the callee of a call edge is found in the graph.
#[derive(Debug, Clone, Copy, PartialEq, Eq, Structural)]
pub enum CallEdgeMatch {
    /// A generated call: the callee is matched by qualified name or by its
    /// last path segments, and created when neither matches.
    SyntheticOrCreate,
    /// The callee is matched by its qualified name.
    QualifiedName,
    /// The callee is matched by its bare name within the caller's crate.
    NameInCallerCrate,
}

/// What the writer sends for one call.
#[derive(Debug, Clone)]
pub struct CallEdgePlan {
    pub matching: CallEdgeMatch,
    /// The name the callee is looked up by.
    pub callee: String,
    /// For a generated call: `::` and the last three segments of the callee
    /// (the whole callee when it has fewer).
    pub callee_suffix: Option<String>,
    /// For a generated call: the caller's first path segment.
    pub caller_crate: Option<String>,
    pub violates_architecture: bool,
}

/// The name a call's callee is looked up by: its qualified name when known.
pub open spec fn callee_target(c: GraphCall) -> Seq<char> {
    match c.qualified_callee {
        Some(q) => q@,
        None => c.callee_name@,
    }
}

/// The suffix a generated call's callee is also matched by.
pub open spec fn callee_suffix(t: Seq<char>) -> Seq<char> {
    let parts = split_seq(t, "::"@);
    if parts.len() >= 3 {
        "::"@ + join_seq(parts.subrange(parts.len() - 3, parts.len() as int), "::"@)
    } else {
        "::"@ + t
    }
}

/// Whether the call runs from a lower layer up to a higher one.
pub open spec fn call_violates_layers(config: Config, c: GraphCall) -> bool {
    match c.to_crate {
        Some(t) => layer_violation(config.architecture.layers@, c.from_crate@, t@),
        None => false,
    }
}

pub open spec fn call_edge_match(c: GraphCall) -> CallEdgeMatch {
    if c.is_synthetic {
        CallEdgeMatch::SyntheticOrCreate
    } else if c.qualified_callee is Some {
        CallEdgeMatch::QualifiedName
    } else {
        CallEdgeMatch::NameInCallerCrate
    }
}

fn path_separator() -> (v: Vec<char>)
    ensures
        v@ == "::"@,
        v@.len() == 2,
{
    proof {
        reveal_strlit("::");
    }
    chars_of("::")
}

fn suffix_of_callee(t: &str) -> (s: String)
    ensures
        s@ == callee_suffix(t@),
{
    let sep = path_separator();
    let tc = chars_of(t);
    let mut parts = split_chars(tc.as_slice(), sep.as_slice());
    let ghost all = split_seq(t@, "::"@);
    if parts.len() >= 3 {
        while parts.len() > 3
            invariant
                3 <= parts@.len() <= all.len(),
                views(parts@) == all.subrange(all.len() - parts@.len(), all.len() as int),
            decreases parts@.len(),
        {
            let ghost before = views(parts@);
            parts.remove(0);
            assert(views(parts@) =~= before.subrange(1, before.len() as int));
        }
        let mut joined = join_chars(&parts, sep.as_slice());
        let mut out = path_separator();
        out.append(&mut joined);
        string_from(out.as_slice())
    } else {
        let mut out = path_separator();
        let mut rest = chars_of(t);
        out.append(&mut rest);
        string_from(out.as_slice())
    }
}

fn first_path_segment(s: &str) -> (r: String)
    ensures
        r@ == first_segment(s@, "::"@),
{
    let sep = path_separator();
    let sc = chars_of(s);
    let parts = split_chars(sc.as_slice(), sep.as_slice());
    proof {
        lemma_split_nonempty(s@, "::"@);
    }
    string_from(parts[0].as_slice())
}

/// How one call becomes an edge of the graph.
pub fn call_edge_plan(config: &Config, call: &GraphCall) -> (p: CallEdgePlan)
    ensures
        p.matching == call_edge_match(*call),
        p.callee@ == callee_target(*call),
        p.violates_architecture == call_violates_layers(*config, *call),
        call.is_synthetic ==> opt_view(p.callee_suffix) == Some(callee_suffix(callee_target(*call)))
            && opt_view(p.caller_crate) == Some(first_segment(call.caller_id@, "::"@)),
        !call.is_synthetic ==> p.callee_suffix is None && p.caller_crate is None,
{
    let callee = match &call.qualified_callee {
        Some(q) => q.clone(),
        None => call.callee_name.clone(),
    };
    let violates = match &call.to_crate {
        Some(t) => config.is_layer_violation(call.from_crate.as_str(), t.as_str()),
        None => false,
    };
    if call.is_synthetic {
        let suffix = suffix_of_callee(callee.as_str());
        let krate = first_path_segment(call.caller_id.as_str());
        CallEdgePlan {
            matching: CallEdgeMatch::SyntheticOrCreate,
            callee,
            callee_suffix: Some(suffix),
            caller_crate: Some(krate),
            violates_architecture: violates,
        }
    } else {
        let matching = if call.qualified_callee.is_some() {
            CallEdgeMatch::QualifiedName
        } else {
            CallEdgeMatch::NameInCallerCrate
        };
        CallEdgePlan {
            matching,
            callee,
            callee_suffix: None,
            caller_crate: None,
            violates_architecture: violates,
        }
    }
}

/// How many call edges are sent per batch: the configured batch size, at
/// most 100.
pub fn relationship_batch_size(config: &Config) -> (n: usize)
    ensures
        n == (if config.memgraph.batch_size < 100 { config.memgraph.batch_size } else { 100 }),
{
    if config.memgraph.batch_size < 100 {
        config.memgraph.batch_size
    } else {
        100
    }
}

// ---------------------------------------------------------------------------
// Message sends
// ---------------------------------------------------------------------------

/// A message send found by the parser.
#[derive(Debug, Clone)]
pub struct MessageSendSite {
    pub sender_actor: String,
    pub receiver_actor: String,
    pub message_type: String,
    pub send_method: String,
    pub file_path: String,
    pub line: usize,
    pub from_crate: String,
}

/// What the writer sends for a message send that it records.
#[derive(Debug, Clone, Copy, PartialEq, Eq, Structural)]
pub struct SendEdgePlan {
    pub is_distributed: bool,
}

/// A send is recorded when both its sender and its message are known.
pub open spec fn send_is_recorded(s: MessageSendSite) -> bool {
    s.sender_actor@ != "Unknown"@ && s.message_type@ != "Unknown"@
}

/// A send crosses processes when its receiver or its message says so.
pub open spec fn send_is_distributed(s: MessageSendSite) -> bool {
    contains_seq(s.receiver_actor@, "Distributed"@) || contains_seq(s.message_type@, "Distributed"@)
}

/// The edge for one message send, or `None` when the send is skipped.
pub fn send_edge_plan(send: &MessageSendSite) -> (r: Option<SendEdgePlan>)
    ensures
        r == (if send_is_recorded(*send) {
            Some(SendEdgePlan { is_distributed: send_is_distributed(*send) })
        } else {
            None::<SendEdgePlan>
        }),
{
    if str_eq(send.sender_actor.as_str(), "Unknown") || str_eq(send.message_type.as_str(), "Unknown") {
        return None;
    }
    let is_distributed = str_contains(send.receiver_actor.as_str(), "Distributed") || str_contains(
        send.message_type.as_str(),
        "Distributed",
    );
    Some(SendEdgePlan { is_distributed })
}

// ---------------------------------------------------------------------------
// Function nodes
// ---------------------------------------------------------------------------

/// A function found by the parser, as the graph writer reads it.
#[derive(Debug)]
pub struct GraphFunction {
    pub id: String,
    pub name: String,
    pub qualified_name: String,
    pub crate_name: String,
    pub module: String,
    pub file_path: String,
    pub line_start: usize,
    pub line_end: usize,
    pub is_trait_impl: bool,
}

impl Clone for GraphFunction {
    fn clone(&self) -> (r: Self)
        ensures
            r == *self,
    {
        GraphFunction {
            id: self.id.clone(),
            name: self.name.clone(),
            qualified_name: self.qualified_name.clone(),
            crate_name: self.crate_name.clone(),
            module: self.module.clone(),
            file_path: self.file_path.clone(),
            line_start: self.line_start,
            line_end: self.line_end,
            is_trait_impl: self.is_trait_impl,
        }
    }
}

/// The methods of one impl block.
#[derive(Debug, Clone)]
pub struct GraphImplBlock {
    pub self_type: String,
    pub trait_name: Option<String>,
    pub methods: Vec<GraphFunction>,
}

/// The largest line number the merge compares (its arithmetic is done in
/// 32-bit signed integers).
pub const MAX_COMPARED_LINE: usize = 0x7fff_ffff;

/// Two records name the same function: same qualified name, starting within
/// five lines of each other.
pub open spec fn same_site(f: GraphFunction, m: GraphFunction) -> bool {
    f.qualified_name@ == m.qualified_name@ && -5 <= f.line_start - m.line_start <= 5
}

/// Index of the first record at or after `i` that names the same function as
/// `m`, or -1.
pub open spec fn first_same_site(fs: Seq<GraphFunction>, m: GraphFunction, i: int) -> int
    decreases fs.len() - i,
{
    if i < 0 || i >= fs.len() {
        -1
    } else if same_site(fs[i], m) {
        i
    } else {
        first_same_site(fs, m, i + 1)
    }
}

pub proof fn lemma_first_same_site(fs: Seq<GraphFunction>, m: GraphFunction, i: int)
    requires
        0 <= i,
    ensures
        first_same_site(fs, m, i) == -1 || (i <= first_same_site(fs, m, i) < fs.len()
            && same_site(fs[first_same_site(fs, m, i)], m)),
        forall|j: int|
            i <= j < fs.len() && (first_same_site(fs, m, i) == -1 || j < first_same_site(
                fs,
                m,
                i,
            )) ==> !same_site(#[trigger] fs[j], m),
    decreases fs.len() - i,
{
    if i < fs.len() && !same_site(fs[i], m) {
        lemma_first_same_site(fs, m, i + 1);
    }
}

/// The record marked as implementing a trait method.
pub open spec fn with_trait_impl(f: GraphFunction) -> GraphFunction {
    GraphFunction {
        id: f.id,
        name: f.name,
        qualified_name: f.qualified_name,
        crate_name: f.crate_name,
        module: f.module,
        file_path: f.file_path,
        line_start: f.line_start,
        line_end: f.line_end,
        is_trait_impl: true,
    }
}

/// One impl method joins the list: a record of the same function is kept (and
/// marked as a trait method when the impl method is one); otherwise the
/// method is added at the end.
pub open spec fn merge_method(fs: Seq<GraphFunction>, m: GraphFunction) -> Seq<GraphFunction> {
    let k = first_same_site(fs, m, 0);
    if k < 0 {
        fs.push(m)
    } else if m.is_trait_impl && !fs[k].is_trait_impl {
        fs.update(k, with_trait_impl(fs[k]))
    } else {
        fs
    }
}

/// The impl methods join the list one after the other.
pub open spec fn merge_methods(fs: Seq<GraphFunction>, ms: Seq<GraphFunction>) -> Seq<
    GraphFunction,
>
    decreases ms.len(),
{
    if ms.len() == 0 {
        fs
    } else {
        merge_method(merge_methods(fs, ms.drop_last()), ms.last())
    }
}

/// The methods of the impl blocks, block after block.
pub open spec fn impl_methods(impls: Seq<GraphImplBlock>) -> Seq<GraphFunction>
    decreases impls.len(),
{
    if impls.len() == 0 {
        Seq::empty()
    } else {
        impl_methods(impls.drop_last()) + impls.last().methods@
    }
}

pub open spec fn lines_compared(fs: Seq<GraphFunction>) -> bool {
    forall|i: int| 0 <= i < fs.len() ==> (#[trigger] fs[i]).line_start <= MAX_COMPARED_LINE
}

fn find_same_site(fs: &Vec<GraphFunction>, m: &GraphFunction) -> (r: Option<usize>)
    ensures
        match r {
            Some(k) => k as int == first_same_site(fs@, *m, 0),
            None => first_same_site(fs@, *m, 0) == -1,
        },
{
    proof {
        lemma_first_same_site(fs@, *m, 0);
    }
    let mut i: usize = 0;
    while i < fs.len()
        invariant
            i <= fs@.len(),
            forall|j: int| 0 <= j < i ==> !same_site(#[trigger] fs@[j], *m),
            first_same_site(fs@, *m, 0) == -1 || i <= first_same_site(fs@, *m, 0),
        decreases fs@.len() - i,
    {
        proof {
            lemma_first_same_site(fs@, *m, 0);
        }
        let f = &fs[i];
        let near = if f.line_start >= m.line_start {
            f.line_start - m.line_start <= 5
        } else {
            m.line_start - f.line_start <= 5
        };
        if near && str_eq(f.qualified_name.as_str(), m.qualified_name.as_str()) {
            return Some(i);
        }
        i = i + 1;
    }
    None
}

fn merge_one(all: &mut Vec<GraphFunction>, m: &GraphFunction)
    ensures
        final(all)@ == merge_method(old(all)@, *m),
{
    proof {
        lemma_first_same_site(all@, *m, 0);
    }
    match find_same_site(all, m) {
        Some(k) => {
            if m.is_trait_impl && !all[k].is_trait_impl {
                let ghost before = all@;
                let mut e = all.remove(k);
                e.is_trait_impl = true;
                all.insert(k, e);
                assert(all@ =~= before.update(k as int, with_trait_impl(before[k as int])));
            }
        },
        None => {
            all.push(m.clone());
        },
    }
}

/// The functions of a file set with the methods of its impl blocks: each
/// method that no listed function matches (same qualified name, starting
/// within five lines) is added; a matched function is marked as a trait
/// method when the impl method is one.
pub fn merge_impl_methods(functions: Vec<GraphFunction>, impls: &Vec<GraphImplBlock>) -> (r: Vec<
    GraphFunction,
>)
    requires
        lines_compared(functions@),
        lines_compared(impl_methods(impls@)),
    ensures
        r@ == merge_methods(functions@, impl_methods(impls@)),
{
    let mut all = functions;
    let mut b: usize = 0;
    while b < impls.len()
        invariant
            b <= impls@.len(),
            all@ == merge_methods(functions@, impl_methods(impls@.take(b as int))),
        decreases impls@.len() - b,
    {
        let block = &impls[b];
        let ghost done = impl_methods(impls@.take(b as int));
        let mut j: usize = 0;
        while j < block.methods.len()
            invariant
                b < impls@.len(),
                block == impls@[b as int],
                j <= block.methods@.len(),
                done == impl_methods(impls@.take(b as int)),
                all@ == merge_methods(functions@, done + block.methods@.take(j as int)),
            decreases block.methods@.len() - j,
        {
            let m = &block.methods[j];
            proof {
                assert((done + block.methods@.take(j + 1)).drop_last() =~= done
                    + block.methods@.take(j as int));
                assert((done + block.methods@.take(j + 1)).last() == block.methods@[j as int]);
            }
            merge_one(&mut all, m);
            j = j + 1;
        }
        proof {
            assert(impls@.take(b + 1).drop_last() =~= impls@.take(b as int));
            assert(block.methods@.take(j as int) =~= block.methods@);
        }
        b = b + 1;
    }
    assert(impls@.take(impls@.len() as int) =~= impls@);
    all
}

// ---------------------------------------------------------------------------
// Macro expansions
// ---------------------------------------------------------------------------

/// A macro expansion found by the parser.
#[derive(Debug, Clone)]
pub struct MacroExpansionSite {
    pub crate_name: String,
    pub file_path: String,
    pub line: usize,
    pub macro_type: String,
    pub expansion_pattern: String,
}

/// A call that a macro expansion stands for: from the function that holds the
/// expansion to a function the expansion creates.
#[derive(Debug, Clone)]
pub struct ExpansionCallEdge {
    pub caller_id: String,
    pub target_id: String,
    pub macro_type: String,
    pub macro_line: usize,
    pub expansion_pattern: String,
}

pub ghost struct ExpansionCallEdgeModel {
    pub caller_id: Seq<char>,
    pub target_id: Seq<char>,
    pub macro_type: Seq<char>,
    pub macro_line: int,
    pub expansion_pattern: Seq<char>,
}

impl View for ExpansionCallEdge {
    type V = ExpansionCallEdgeModel;

    open spec fn view(&self) -> ExpansionCallEdgeModel {
        ExpansionCallEdgeModel {
            caller_id: self.caller_id@,
            target_id: self.target_id@,
            macro_type: self.macro_type@,
            macro_line: self.macro_line as int,
            expansion_pattern: self.expansion_pattern@,
        }
    }
}

/// The function's lines hold the expansion.
pub open spec fn encloses(f: GraphFunction, e: MacroExpansionSite) -> bool {
    f.file_path@ == e.file_path@ && f.line_start <= e.line <= f.line_end
}

/// The batch computation of the indicator crate, which the indicator-type
/// macros expand inside.
pub open spec fn is_batch_computation(f: GraphFunction) -> bool {
    f.crate_name@ == "trading-ta"@ && contains_seq(f.name@, "compute_batch_parallel"@)
}

/// Index of the first function at or after `i` that meets `p`, or -1.
pub open spec fn first_where(fs: Seq<GraphFunction>, p: spec_fn(GraphFunction) -> bool, i: int) -> int
    decreases fs.len() - i,
{
    if i < 0 || i >= fs.len() {
        -1
    } else if p(fs[i]) {
        i
    } else {
        first_where(fs, p, i + 1)
    }
}

pub proof fn lemma_first_where(fs: Seq<GraphFunction>, p: spec_fn(GraphFunction) -> bool, i: int)
    requires
        0 <= i,
    ensures
        first_where(fs, p, i) == -1 || (i <= first_where(fs, p, i) < fs.len() && p(
            fs[first_where(fs, p, i)],
        )),
        forall|j: int|
            i <= j < fs.len() && (first_where(fs, p, i) == -1 || j < first_where(fs, p, i))
                ==> !p(#[trigger] fs[j]),
    decreases fs.len() - i,
{
    if i < fs.len() && !p(fs[i]) {
        lemma_first_where(fs, p, i + 1);
    }
}

/// The identifier of the function that holds a macro expansion: the first
/// whose lines hold it; for an expansion in the indicator-type file of the
/// indicator crate, failing that, the crate's batch computation, or the
/// identifier that computation would have.
pub open spec fn containing_function(e: MacroExpansionSite, fs: Seq<GraphFunction>) -> Option<
    Seq<char>,
> {
    let i = first_where(fs, |f: GraphFunction| encloses(f, e), 0);
    if i >= 0 {
        Some(fs[i].id@)
    } else if contains_seq(e.file_path@, "indicator_types.rs"@) && e.crate_name@ == "trading-ta"@ {
        let j = first_where(fs, |f: GraphFunction| is_batch_computation(f), 0);
        if j >= 0 {
            Some(fs[j].id@)
        } else {
            Some(replace_char(e.crate_name@, '-', '_') + "::types::indicator_types::compute_batch_parallel"@)
        }
    } else {
        None
    }
}

fn first_enclosing(fs: &Vec<GraphFunction>, e: &MacroExpansionSite) -> (r: Option<usize>)
    ensures
        match r {
            Some(k) => k as int == first_where(fs@, |f: GraphFunction| encloses(f, *e), 0),
            None => first_where(fs@, |f: GraphFunction| encloses(f, *e), 0) == -1,
        },
{
    let ghost p = |f: GraphFunction| encloses(f, *e);
    let mut i: usize = 0;
    while i < fs.len()
        invariant
            i <= fs@.len(),
            p == (|f: GraphFunction| encloses(f, *e)),
            forall|j: int| 0 <= j < i ==> !p(#[trigger] fs@[j]),
        decreases fs@.len() - i,
    {
        proof {
            lemma_first_where(fs@, p, 0);
        }
        let f = &fs[i];
        if f.line_start <= e.line && f.line_end >= e.line && str_eq(
            f.file_path.as_str(),
            e.file_path.as_str(),
        ) {
            assert(p(fs@[i as int]));
            return Some(i);
        }
        i = i + 1;
    }
    proof {
        lemma_first_where(fs@, p, 0);
    }
    None
}

fn first_batch_computation(fs: &Vec<GraphFunction>) -> (r: Option<usize>)
    ensures
        match r {
            Some(k) => k as int == first_where(fs@, |f: GraphFunction| is_batch_computation(f), 0),
            None => first_where(fs@, |f: GraphFunction| is_batch_computation(f), 0) == -1,
        },
{
    let ghost p = |f: GraphFunction| is_batch_computation(f);
    let mut i: usize = 0;
    while i < fs.len()
        invariant
            i <= fs@.len(),
            p == (|f: GraphFunction| is_batch_computation(f)),
            forall|j: int| 0 <= j < i ==> !p(#[trigger] fs@[j]),
        decreases fs@.len() - i,
    {
        proof {
            lemma_first_where(fs@, p, 0);
        }
        let f = &fs[i];
        if str_eq(f.crate_name.as_str(), "trading-ta") && str_contains(
            f.name.as_str(),
            "compute_batch_parallel",
        ) {
            assert(p(fs@[i as int]));
            return Some(i);
        }
        i = i + 1;
    }
    proof {
        lemma_first_where(fs@, p, 0);
    }
    None
}

/// The identifier of the function that holds a macro expansion (see
/// `containing_function`).
pub fn find_containing_function(expansion: &MacroExpansionSite, functions: &Vec<GraphFunction>) -> (r:
    Option<String>)
    ensures
        opt_view(r) == containing_function(*expansion, functions@),
{
    proof {
        lemma_first_where(functions@, |f: GraphFunction| encloses(f, *expansion), 0);
        lemma_first_where(functions@, |f: GraphFunction| is_batch_computation(f), 0);
    }
    if let Some(i) = first_enclosing(functions, expansion) {
        return Some(functions[i].id.clone());
    }
    if str_contains(expansion.file_path.as_str(), "indicator_types.rs") && str_eq(
        expansion.crate_name.as_str(),
        "trading-ta",
    ) {
        if let Some(j) = first_batch_computation(functions) {
            return Some(functions[j].id.clone());
        }
        let name = chars_of(expansion.crate_name.as_str());
        let mut id = replace_char_exec(name.as_slice(), '-', '_');
        let mut tail = chars_of("::types::indicator_types::compute_batch_parallel");
        id.append(&mut tail);
        return Some(string_from(id.as_slice()));
    }
    None
}

/// A constructor of an indicator: `new` in an `indicators` module of the crate.
pub open spec fn is_indicator_constructor(f: GraphFunction, krate: Seq<char>) -> bool {
    &&& f.crate_name@ == krate
    &&& f.name@ == "new"@
    &&& mentions(f.module@, "indicators::"@, "indicators."@)
}

/// The indicator constructors of the crate, in list order.
pub open spec fn indicator_constructors(fs: Seq<GraphFunction>, krate: Seq<char>) -> Seq<
    GraphFunction,
>
    decreases fs.len(),
{
    if fs.len() == 0 {
        Seq::empty()
    } else if is_indicator_constructor(fs.last(), krate) {
        indicator_constructors(fs.drop_last(), krate).push(fs.last())
    } else {
        indicator_constructors(fs.drop_last(), krate)
    }
}

/// The indicator constructors of `target_crate` among the functions.
pub fn find_indicator_new_functions<'a>(functions: &'a Vec<GraphFunction>, target_crate: &str) -> (r:
    Vec<&'a GraphFunction>)
    ensures
        r@.map_values(|f: &GraphFunction| *f) == indicator_constructors(functions@, target_crate@),
{
    let mut r: Vec<&GraphFunction> = Vec::new();
    let mut i: usize = 0;
    while i < functions.len()
        invariant
            i <= functions@.len(),
            r@.map_values(|f: &GraphFunction| *f) == indicator_constructors(
                functions@.take(i as int),
                target_crate@,
            ),
        decreases functions@.len() - i,
    {
        let f = &functions[i];
        proof {
            assert(functions@.take(i + 1).drop_last() =~= functions@.take(i as int));
        }
        let ghost before = r@;
        if str_eq(f.crate_name.as_str(), target_crate) && str_eq(f.name.as_str(), "new")
            && mentions_exec(f.module.as_str(), "indicators::", "indicators.") {
            r.push(f);
            assert(r@.map_values(|f: &GraphFunction| *f) =~= before.map_values(
                |f: &GraphFunction| *f,
            ).push(*f));
        }
        i = i + 1;
    }
    assert(functions@.take(functions@.len() as int) =~= functions@);
    r
}

/// The edge from the holding function to one created function.
pub open spec fn expansion_edge(
    caller: Seq<char>,
    e: MacroExpansionSite,
    t: GraphFunction,
) -> ExpansionCallEdgeModel {
    ExpansionCallEdgeModel {
        caller_id: caller,
        target_id: t.id@,
        macro_type: e.macro_type@,
        macro_line: e.line as int,
        expansion_pattern: e.expansion_pattern@,
    }
}

/// The edges one expansion stands for: one to each indicator constructor of
/// its crate, from the function that holds it; none when no function holds
/// it.
pub open spec fn edges_of_expansion(e: MacroExpansionSite, fs: Seq<GraphFunction>) -> Seq<
    ExpansionCallEdgeModel,
> {
    match containing_function(e, fs) {
        Some(c) => indicator_constructors(fs, e.crate_name@).map_values(
            |t: GraphFunction| expansion_edge(c, e, t),
        ),
        None => Seq::empty(),
    }
}

/// The edges of all expansions, expansion after expansion.
pub open spec fn expansion_edges(es: Seq<MacroExpansionSite>, fs: Seq<GraphFunction>) -> Seq<
    ExpansionCallEdgeModel,
>
    decreases es.len(),
{
    if es.len() == 0 {
        Seq::empty()
    } else {
        expansion_edges(es.drop_last(), fs) + edges_of_expansion(es.last(), fs)
    }
}

pub open spec fn edge_views(v: Seq<ExpansionCallEdge>) -> Seq<ExpansionCallEdgeModel> {
    v.map_values(|x: ExpansionCallEdge| x@)
}

/// The calls that the macro expansions stand for.
pub fn expansion_call_edges(
    expansions: &Vec<MacroExpansionSite>,
    functions: &Vec<GraphFunction>,
) -> (r: Vec<ExpansionCallEdge>)
    ensures
        edge_views(r@) == expansion_edges(expansions@, functions@),
{
    let mut r: Vec<ExpansionCallEdge> = Vec::new();
    let mut i: usize = 0;
    while i < expansions.len()
        invariant
            i <= expansions@.len(),
            edge_views(r@) == expansion_edges(expansions@.take(i as int), functions@),
        decreases expansions@.len() - i,
    {
        let e = &expansions[i];
        proof {
            assert(expansions@.take(i + 1).drop_last() =~= expansions@.take(i as int));
        }
        let ghost start = edge_views(r@);
        if let Some(caller) = find_containing_function(e, functions) {
            let targets = find_indicator_new_functions(functions, e.crate_name.as_str());
            let ghost ts = indicator_constructors(functions@, e.crate_name@);
            let mut k: usize = 0;
            while k < targets.len()
                invariant
                    k <= targets@.len(),
                    targets@.map_values(|f: &GraphFunction| *f) == ts,
                    edge_views(r@) == start + ts.take(k as int).map_values(
                        |t: GraphFunction| expansion_edge(caller@, *e, t),
                    ),
                decreases targets@.len() - k,
            {
                let t = targets[k];
                assert(*t == ts[k as int]);
                let ghost before = r@;
                r.push(
                    ExpansionCallEdge {
                        caller_id: caller.clone(),
                        target_id: t.id.clone(),
                        macro_type: e.macro_type.clone(),
                        macro_line: e.line,
                        expansion_pattern: e.expansion_pattern.clone(),
                    },
                );
                assert(edge_views(r@) =~= edge_views(before).push(expansion_edge(caller@, *e, *t)));
                assert(ts.take(k + 1).map_values(|t: GraphFunction| expansion_edge(caller@, *e, t))
                    =~= ts.take(k as int).map_values(
                    |t: GraphFunction| expansion_edge(caller@, *e, t),
                ).push(expansion_edge(caller@, *e, *t)));
                k = k + 1;
            }
            assert(ts.take(ts.len() as int) =~= ts);
        } else {
            assert(edge_views(r@) =~= start + Seq::empty());
        }
        i = i + 1;
    }
    assert(expansions@.take(expansions@.len() as int) =~= expansions@);
    r
}

// ---------------------------------------------------------------------------
// Indicator identifiers
// ---------------------------------------------------------------------------

pub open spec fn is_ascii_upper(c: char) -> bool {
    'A' <= c && c <= 'Z'
}

/// The ASCII lower-case form of a character; others are unchanged.
pub open spec fn ascii_lower(c: char) -> char {
    if is_ascii_upper(c) {
        ((c as u32) + 32) as char
    } else {
        c
    }
}

fn ascii_lower_exec(c: char) -> (r: char)
    ensures
        r == ascii_lower(c),
{
    if 'A' <= c && c <= 'Z' {
        let code: u8 = c as u8;
        assert(code as u32 == c as u32);
        (code + 32) as char
    } else {
        c
    }
}

/// The snake-case form of the characters after the first: an upper-case
/// letter becomes `_` and its lower-case form.
pub open spec fn snake_tail(s: Seq<char>) -> Seq<char>
    decreases s.len(),
{
    if s.len() == 0 {
        Seq::empty()
    } else if is_ascii_upper(s.last()) {
        snake_tail(s.drop_last()) + seq!['_', ascii_lower(s.last())]
    } else {
        snake_tail(s.drop_last()).push(s.last())
    }
}

/// The snake-case form of a PascalCase name (`MultiLengthRsi` becomes
/// `multi_length_rsi`).
pub open spec fn snake_case(s: Seq<char>) -> Seq<char> {
    if s.len() == 0 {
        Seq::empty()
    } else {
        seq![ascii_lower(s[0])] + snake_tail(s.skip(1))
    }
}

/// The snake-case form of a PascalCase name.
pub fn convert_to_snake_case(pascal: &str) -> (r: String)
    ensures
        r@ == snake_case(pascal@),
{
    let cs = chars_of(pascal);
    if cs.len() == 0 {
        return String::new();
    }
    let mut out: Vec<char> = Vec::new();
    out.push(ascii_lower_exec(cs[0]));
    let ghost rest = pascal@.skip(1);
    let mut i: usize = 1;
    while i < cs.len()
        invariant
            1 <= i <= cs@.len(),
            cs@ == pascal@,
            rest == pascal@.skip(1),
            out@ == seq![ascii_lower(pascal@[0])] + snake_tail(rest.take(i - 1)),
        decreases cs@.len() - i,
    {
        let c = cs[i];
        proof {
            assert(rest.take(i as int).drop_last() =~= rest.take(i - 1));
            assert(rest.take(i as int).last() == c);
        }
        let ghost before = out@;
        if 'A' <= c && c <= 'Z' {
            out.push('_');
            out.push(ascii_lower_exec(c));
            assert(out@ =~= seq![ascii_lower(pascal@[0])] + snake_tail(rest.take(i as int)));
        } else {
            out.push(c);
            assert(out@ =~= seq![ascii_lower(pascal@[0])] + snake_tail(rest.take(i as int)));
        }
        i = i + 1;
    }
    assert(rest.take(cs@.len() - 1) =~= rest);
    string_from(out.as_slice())
}

/// Every character in ASCII lower case.
pub open spec fn ascii_lowercase(s: Seq<char>) -> Seq<char> {
    s.map_values(|c: char| ascii_lower(c))
}

fn ascii_lowercase_exec(s: &str) -> (r: String)
    ensures
        r@ == ascii_lowercase(s@),
{
    let cs = chars_of(s);
    let mut out: Vec<char> = Vec::new();
    for i in 0..cs.len()
        invariant
            cs@ == s@,
            out@ == ascii_lowercase(s@.take(i as int)),
    {
        out.push(ascii_lower_exec(cs[i]));
        assert(ascii_lowercase(s@.take(i + 1)) =~= ascii_lowercase(s@.take(i as int)).push(
            ascii_lower(s@[i as int]),
        ));
    }
    assert(s@.take(cs@.len() as int) =~= s@);
    string_from(out.as_slice())
}

/// The indicators that the indicator macros can instantiate.
pub open spec fn indicator_names() -> Seq<Seq<char>> {
    seq![
        "Alma"@, "ApproximateQuartiles"@, "Atr"@, "Bb"@, "Cvd"@, "CvdTrend"@,
        "DeltaVix"@, "Divergence"@, "Dmi"@, "Ema"@, "Lwpi"@, "Macd"@,
        "MultiLengthRsi"@, "OIIndicatorSuite"@, "Qama"@, "Rma"@, "Rsi"@,
        "Sma"@, "Supertrail"@, "Supertrend"@, "Tdfi"@, "Trendilo"@, "Vwma"@,
        "Cci"@,
    ]
}

/// The constructor path of an indicator whose module is named `module`.
pub open spec fn indicator_constructor_id(krate: Seq<char>, module: Seq<char>) -> Seq<char> {
    krate + "::indicators::"@ + module + "::new"@
}

pub open spec fn has_ascii_upper(s: Seq<char>) -> bool {
    exists|i: int| 0 <= i < s.len() && is_ascii_upper(#[trigger] s[i])
}

/// The identifiers for one indicator: its snake-case module, and, for a name
/// with capitals that differs from it, its lower-case module too.
pub open spec fn ids_of_indicator(krate: Seq<char>, name: Seq<char>) -> Seq<Seq<char>> {
    let first = seq![indicator_constructor_id(krate, snake_case(name))];
    if has_ascii_upper(name) && name != snake_case(name) {
        first.push(indicator_constructor_id(krate, ascii_lowercase(name)))
    } else {
        first
    }
}

pub open spec fn ids_of_indicators(krate: Seq<char>, names: Seq<Seq<char>>) -> Seq<Seq<char>>
    decreases names.len(),
{
    if names.len() == 0 {
        Seq::empty()
    } else {
        ids_of_indicators(krate, names.drop_last()) + ids_of_indicator(krate, names.last())
    }
}

fn indicator_list() -> (v: Vec<&'static str>)
    ensures
        v@.map_values(|s: &str| s@) == indicator_names(),
{
    let v: Vec<&'static str> = vec![
        "Alma", "ApproximateQuartiles", "Atr", "Bb", "Cvd", "CvdTrend",
        "DeltaVix", "Divergence", "Dmi", "Ema", "Lwpi", "Macd",
        "MultiLengthRsi", "OIIndicatorSuite", "Qama", "Rma", "Rsi",
        "Sma", "Supertrail", "Supertrend", "Tdfi", "Trendilo", "Vwma",
        "Cci",
    ];
    assert(v@.map_values(|s: &str| s@) =~= indicator_names());
    v
}

fn has_ascii_upper_exec(s: &str) -> (b: bool)
    ensures
        b == has_ascii_upper(s@),
{
    let cs = chars_of(s);
    for i in 0..cs.len()
        invariant
            cs@ == s@,
            forall|j: int| 0 <= j < i ==> !is_ascii_upper(#[trigger] s@[j]),
    {
        if 'A' <= cs[i] && cs[i] <= 'Z' {
            assert(is_ascii_upper(s@[i as int]));
            return true;
        }
    }
    false
}

fn constructor_id(krate: &str, module: &str) -> (r: String)
    ensures
        r@ == indicator_constructor_id(krate@, module@),
{
    let r = String::from_str(krate);
    let r = r.concat("::indicators::");
    let r = r.concat(module);
    r.concat("::new")
}

/// The constructor identifiers of all known indicators in `crate_name`.
pub fn generate_indicator_function_ids(crate_name: &str) -> (r: Vec<String>)
    ensures
        r@.map_values(|s: String| s@) == ids_of_indicators(crate_name@, indicator_names()),
{
    let names = indicator_list();
    let mut r: Vec<String> = Vec::new();
    for i in 0..names.len()
        invariant
            names@.map_values(|s: &str| s@) == indicator_names(),
            r@.map_values(|s: String| s@) == ids_of_indicators(
                crate_name@,
                indicator_names().take(i as int),
            ),
    {
        let name = names[i];
        proof {
            assert(indicator_names().take(i + 1).drop_last() =~= indicator_names().take(i as int));
            assert(indicator_names()[i as int] == name@);
        }
        let ghost before = r@.map_values(|s: String| s@);
        let snake = convert_to_snake_case(name);
        r.push(constructor_id(crate_name, snake.as_str()));
        if has_ascii_upper_exec(name) && !str_eq(name, snake.as_str()) {
            let lower = ascii_lowercase_exec(name);
            r.push(constructor_id(crate_name, lower.as_str()));
        }
        assert(r@.map_values(|s: String| s@) =~= before + ids_of_indicator(crate_name@, name@));
    }
    assert(indicator_names().take(indicator_names().len() as int) =~= indicator_names());
    r
}

/// Merging impl methods keeps every listed function in its place: the list
/// only grows, and each function keeps its identity, name and lines, at most
/// becoming marked as a trait method.
pub proof fn lemma_merge_keeps_functions(fs: Seq<GraphFunction>, ms: Seq<GraphFunction>)
    ensures
        merge_methods(fs, ms).len() >= fs.len(),
        forall|i: int|
            0 <= i < fs.len() ==> {
                let g = #[trigger] merge_methods(fs, ms)[i];
                &&& g.id == fs[i].id
                &&& g.qualified_name == fs[i].qualified_name
                &&& g.line_start == fs[i].line_start
                &&& g.line_end == fs[i].line_end
                &&& (fs[i].is_trait_impl ==> g.is_trait_impl)
            },
    decreases ms.len(),
{
    if ms.len() > 0 {
        let prev = merge_methods(fs, ms.drop_last());
        lemma_merge_keeps_functions(fs, ms.drop_last());
        lemma_first_same_site(prev, ms.last(), 0);
        assert forall|i: int| 0 <= i < fs.len() implies {
            let g = #[trigger] merge_methods(fs, ms)[i];
            &&& g.id == fs[i].id
            &&& g.qualified_name == fs[i].qualified_name
            &&& g.line_start == fs[i].line_start
            &&& g.line_end == fs[i].line_end
            &&& (fs[i].is_trait_impl ==> g.is_trait_impl)
        } by {
            assert(merge_methods(fs, ms)[i].id == prev[i].id);
        }
    }
}

/// After merging, every impl method is present: either it was added, or a
/// listed function names the same function.
pub proof fn lemma_merge_covers_methods(fs: Seq<GraphFunction>, m: GraphFunction)
    ensures
        exists|i: int|
            0 <= i < merge_method(fs, m).len() && same_site(#[trigger] merge_method(fs, m)[i], m),
{
    lemma_first_same_site(fs, m, 0);
    let k = first_same_site(fs, m, 0);
    if k < 0 {
        assert(merge_method(fs, m)[fs.len() as int] == m);
        assert(same_site(m, m));
    } else {
        assert(same_site(merge_method(fs, m)[k], m));
    }
}

proof fn lemma_ascii_lower_not_upper(c: char)
    ensures
        !is_ascii_upper(ascii_lower(c)),
{
    if is_ascii_upper(c) {
        assert(((c as u32) + 32) as char == ascii_lower(c));
        assert((((c as u32) + 32) as char) as u32 == (c as u32) + 32);
    }
}

proof fn lemma_snake_tail_lower(s: Seq<char>)
    ensures
        forall|i: int| 0 <= i < snake_tail(s).len() ==> !is_ascii_upper(#[trigger] snake_tail(s)[i]),
    decreases s.len(),
{
    if s.len() > 0 {
        let prev = snake_tail(s.drop_last());
        lemma_snake_tail_lower(s.drop_last());
        lemma_ascii_lower_not_upper(s.last());
        assert(!is_ascii_upper('_'));
        assert forall|i: int| 0 <= i < snake_tail(s).len() implies !is_ascii_upper(
            #[trigger] snake_tail(s)[i],
        ) by {
            if i < prev.len() {
                assert(snake_tail(s)[i] == prev[i]);
            }
        }
    }
}

/// The snake-case form holds no upper-case ASCII letter.
pub proof fn lemma_snake_case_is_lower(s: Seq<char>)
    ensures
        forall|i: int| 0 <= i < snake_case(s).len() ==> !is_ascii_upper(#[trigger] snake_case(s)[i]),
{
    if s.len() > 0 {
        lemma_ascii_lower_not_upper(s[0]);
        lemma_snake_tail_lower(s.skip(1));
        assert forall|i: int| 0 <= i < snake_case(s).len() implies !is_ascii_upper(
            #[trigger] snake_case(s)[i],
        ) by {
            if i > 0 {
                assert(snake_case(s)[i] == snake_tail(s.skip(1))[i - 1]);
            }
        }
    }
}

// ---------------------------------------------------------------------------
// Generated calls, bulk inserts, clearing and statistics
// ---------------------------------------------------------------------------

/// How a generated call is linked: first to every function whose module and
/// name match (when both are known), else to the function with the qualified
/// name, created if missing.
#[derive(Debug, Clone)]
pub struct SyntheticCallPlan {
    pub lookup: Option<(String, String)>,
    pub qualified: String,
    pub callee_name: String,
}

/// The qualified callee of a generated call (empty when unknown).
pub open spec fn synthetic_callee(c: GraphCall) -> Seq<char> {
    match c.qualified_callee {
        Some(q) => q@,
        None => Seq::empty(),
    }
}

/// The module path of a qualified name: the text before its last `::`.
pub open spec fn module_part(q: Seq<char>) -> Seq<char> {
    let k = rfind(q, "::"@);
    if k < 0 {
        Seq::empty()
    } else {
        q.take(k)
    }
}

/// The name of a qualified name: the text after its last `::`.
pub open spec fn name_part(q: Seq<char>) -> Seq<char> {
    let k = rfind(q, "::"@);
    if k < 0 {
        q
    } else {
        q.skip(k + 2)
    }
}

/// How a generated call is linked (see `SyntheticCallPlan`).
pub fn synthetic_call_plan(call: &GraphCall) -> (p: SyntheticCallPlan)
    ensures
        p.qualified@ == synthetic_callee(*call),
        p.callee_name@ == name_part(synthetic_callee(*call)),
        match p.lookup {
            Some((m, n)) => m@ == module_part(synthetic_callee(*call)) && n@ == name_part(
                synthetic_callee(*call),
            ) && m@.len() > 0 && n@.len() > 0,
            None => module_part(synthetic_callee(*call)).len() == 0 || name_part(
                synthetic_callee(*call),
            ).len() == 0,
        },
{
    let qualified = match &call.qualified_callee {
        Some(q) => q.clone(),
        None => String::new(),
    };
    let qc = chars_of(qualified.as_str());
    let sep = path_separator();
    proof {
        lemma_rfind(qc@, "::"@);
    }
    let (module, name): (Vec<char>, Vec<char>) = match rfind_exec(qc.as_slice(), sep.as_slice()) {
        Some(k) => {
            assert(occurs_at(qc@, "::"@, k as int));
            let n = qc.len();
            (subvec(qc.as_slice(), 0, k), subvec(qc.as_slice(), k + 2, n))
        },
        None => (Vec::new(), subvec(qc.as_slice(), 0, qc.len())),
    };
    assert(qc@.take(rfind(qc@, "::"@)) =~= qc@.subrange(0, rfind(qc@, "::"@)));
    assert(rfind(qc@, "::"@) >= 0 ==> qc@.skip(rfind(qc@, "::"@) + 2) =~= qc@.subrange(
        rfind(qc@, "::"@) + 2,
        qc@.len() as int,
    ));
    assert(qc@.subrange(0, qc@.len() as int) =~= qc@);
    let name_text = string_from(name.as_slice());
    let lookup = if module.len() > 0 && name.len() > 0 {
        Some((string_from(module.as_slice()), string_from(name.as_slice())))
    } else {
        None
    };
    SyntheticCallPlan { lookup, qualified, callee_name: name_text }
}

/// The driver's `char::is_alphanumeric` on a character.
pub uninterp spec fn char_is_alphanumeric(c: char) -> bool;

/// `char::is_alphanumeric`: the character is alphabetic or numeric in the
/// Unicode sense. Stated here: for an ASCII character that means an ASCII
/// letter or digit; for others the result is only named.
#[verifier::external_body]
fn is_alphanumeric_char(c: char) -> (b: bool)
    ensures
        b == char_is_alphanumeric(c),
        (c as u32) < 128 ==> (b == (('a' <= c && c <= 'z') || ('A' <= c && c <= 'Z') || ('0' <= c
            && c <= '9'))),
{
    c.is_alphanumeric()
}

/// A property name that may be spliced into a query: alphanumeric characters
/// and underscores only.
pub open spec fn safe_property_key(k: Seq<char>) -> bool {
    forall|i: int| 0 <= i < k.len() ==> char_is_alphanumeric(#[trigger] k[i]) || k[i] == '_'
}

/// The assignments for the safe property names, in order.
pub open spec fn set_clauses(keys: Seq<Seq<char>>) -> Seq<Seq<char>>
    decreases keys.len(),
{
    if keys.len() == 0 {
        Seq::empty()
    } else if safe_property_key(keys.last()) {
        set_clauses(keys.drop_last()).push(
            "n."@ + keys.last() + " = node."@ + keys.last(),
        )
    } else {
        set_clauses(keys.drop_last())
    }
}

/// The statement that inserts a batch of nodes labelled `node_type`, setting
/// the properties named by the safe keys of the batch's first node.
pub open spec fn unwind_insert_text(node_type: Seq<char>, keys: Seq<Seq<char>>) -> Seq<char> {
    let base = "UNWIND $nodes AS node\n                 CREATE (n:"@ + node_type + ")"@;
    let clauses = set_clauses(keys);
    if clauses.len() == 0 {
        base
    } else {
        base + "\nSET "@ + join_seq(clauses, ", "@)
    }
}

fn is_safe_key(k: &str) -> (b: bool)
    ensures
        b == safe_property_key(k@),
{
    let cs = chars_of(k);
    for i in 0..cs.len()
        invariant
            cs@ == k@,
            forall|j: int| 0 <= j < i ==> char_is_alphanumeric(#[trigger] k@[j]) || k@[j] == '_',
    {
        let c = cs[i];
        if !(is_alphanumeric_char(c) || c == '_') {
            return false;
        }
    }
    true
}

/// The statement that inserts a batch of nodes (see `unwind_insert_text`);
/// `keys` are the property names of the batch's first node, in the order the
/// application reads them.
pub fn unwind_insert_query(node_type: &str, keys: &Vec<String>) -> (q: String)
    ensures
        q@ == unwind_insert_text(node_type@, keys@.map_values(|k: String| k@)),
{
    let ghost kv = keys@.map_values(|k: String| k@);
    let mut clauses: Vec<Vec<char>> = Vec::new();
    for i in 0..keys.len()
        invariant
            kv == keys@.map_values(|k: String| k@),
            views(clauses@) == set_clauses(kv.take(i as int)),
    {
        let k = &keys[i];
        proof {
            assert(kv.take(i + 1).drop_last() =~= kv.take(i as int));
            assert(kv.take(i + 1).last() == k@);
        }
        if is_safe_key(k.as_str()) {
            let clause = String::from_str("n.").concat(k.as_str()).concat(" = node.").concat(
                k.as_str(),
            );
            let ghost before = views(clauses@);
            clauses.push(chars_of(clause.as_str()));
            assert(views(clauses@) =~= before.push(clause@));
        }
    }
    assert(kv.take(kv.len() as int) =~= kv);
    let base = String::from_str("UNWIND $nodes AS node\n                 CREATE (n:").concat(
        node_type,
    ).concat(")");
    if clauses.len() == 0 {
        base
    } else {
        let sep = chars_of(", ");
        let joined = join_chars(&clauses, sep.as_slice());
        let tail = string_from(joined.as_slice());
        base.concat("\nSET ").concat(tail.as_str())
    }
}

/// Nodes above which the database is cleared in batches.
pub const BATCHED_CLEAR_THRESHOLD: i64 = 100_000;

/// Whether the database is cleared in batches rather than in one statement.
pub fn clear_in_batches(node_count: i64) -> (b: bool)
    ensures
        b == (node_count >= BATCHED_CLEAR_THRESHOLD),
{
    node_count >= BATCHED_CLEAR_THRESHOLD
}

/// Node and edge counts of the graph.
#[derive(Debug, Clone, Copy, PartialEq, Eq, Structural)]
pub struct GraphStatistics {
    pub crate_nodes: usize,
    pub function_nodes: usize,
    pub type_nodes: usize,
    pub module_nodes: usize,
    pub actor_nodes: usize,
    pub call_edges: usize,
    pub implements_edges: usize,
    pub spawn_edges: usize,
    pub depends_on_edges: usize,
}

/// The names of the counts, in the order they are asked for.
pub open spec fn statistic_names() -> Seq<Seq<char>> {
    seq![
        "crates"@, "functions"@, "types"@, "modules"@, "actors"@, "calls"@, "implements"@,
        "spawns"@, "depends"@,
    ]
}

/// The count a name refers to.
pub open spec fn statistic(s: GraphStatistics, name: Seq<char>) -> Option<usize> {
    if name == "crates"@ {
        Some(s.crate_nodes)
    } else if name == "functions"@ {
        Some(s.function_nodes)
    } else if name == "types"@ {
        Some(s.type_nodes)
    } else if name == "modules"@ {
        Some(s.module_nodes)
    } else if name == "actors"@ {
        Some(s.actor_nodes)
    } else if name == "calls"@ {
        Some(s.call_edges)
    } else if name == "implements"@ {
        Some(s.implements_edges)
    } else if name == "spawns"@ {
        Some(s.spawn_edges)
    } else if name == "depends"@ {
        Some(s.depends_on_edges)
    } else {
        None
    }
}

impl GraphStatistics {
    pub fn new() -> (s: Self)
        ensures
            forall|n: Seq<char>| statistic_names().contains(n) ==> statistic(s, n) == Some(0usize),
    {
        GraphStatistics {
            crate_nodes: 0,
            function_nodes: 0,
            type_nodes: 0,
            module_nodes: 0,
            actor_nodes: 0,
            call_edges: 0,
            implements_edges: 0,
            spawn_edges: 0,
            depends_on_edges: 0,
        }
    }

    /// Stores the count that the query for `name` returned; an unknown name
    /// changes nothing. A count is stored as a machine-sized number (a negative
    /// one wraps, as the database never returns one).
    pub fn record(&mut self, name: &str, count: i64)
        ensures
            forall|n: Seq<char>|
                n != name@ ==> #[trigger] statistic(*final(self), n) == statistic(*old(self), n),
            statistic(*old(self), name@) is None ==> *final(self) == *old(self),
            statistic(*old(self), name@) is Some && 0 <= count <= usize::MAX ==> statistic(
                *final(self),
                name@,
            ) == Some(count as usize),
    {
        #[verifier::truncate]
        let c: usize = count as usize;
        if str_eq(name, "crates") {
            self.crate_nodes = c;
        } else if str_eq(name, "functions") {
            self.function_nodes = c;
        } else if str_eq(name, "types") {
            self.type_nodes = c;
        } else if str_eq(name, "modules") {
            self.module_nodes = c;
        } else if str_eq(name, "actors") {
            self.actor_nodes = c;
        } else if str_eq(name, "calls") {
            self.call_edges = c;
        } else if str_eq(name, "implements") {
            self.implements_edges = c;
        } else if str_eq(name, "spawns") {
            self.spawn_edges = c;
        } else if str_eq(name, "depends") {
            self.depends_on_edges = c;
        }
    }
}

} // verus!
