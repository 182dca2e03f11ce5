//! Analyzer configuration: the workspace to read, the architecture layers, the
//! graph database settings and the feature switches, with their defaults.
//!
//! The retry back-off base and the memory threshold of the graph database are
//! floating-point settings; they are read and kept by the application alongside
//! these values.
use vstd::prelude::*;

use crate::text::str_eq;
use crate::workspace::copy_strings;
use crate::workspace::views_of;

verus! {

/// `num_cpus::get`: the number of logical CPUs available to the process. Its
/// documentation promises at least one; the value depends on the machine.
#[verifier::external_body]
fn available_cpus() -> (n: usize)
    ensures
        n >= 1,
{
    num_cpus::get()
}

#[derive(Debug, Clone)]
pub struct WorkspaceConfig {
    pub root: String,
    pub additional_roots: Vec<String>,
}

#[derive(Debug, Clone)]
pub struct AnalysisConfig {
    pub recursive_scan: bool,
    pub include_dev_deps: bool,
    pub include_build_deps: bool,
    pub workspace_members_only: bool,
    pub exclude_crates: Vec<String>,
}

#[derive(Debug, Clone)]
pub struct ArchitectureConfig {
    /// Layers from the lowest to the highest.
    pub layers: Vec<Layer>,
}

#[derive(Debug, Clone)]
pub struct Layer {
    pub name: String,
    pub crates: Vec<String>,
}

#[derive(Debug, Clone)]
pub struct MemgraphConfig {
    pub uri: String,
    pub username: String,
    pub password: String,
    pub clean_start: bool,
    pub batch_size: usize,
    pub performance: MemgraphPerformanceConfig,
    pub retry: MemgraphRetryConfig,
    pub memory: MemgraphMemoryConfig,
}

#[derive(Debug, Clone, Copy, PartialEq, Eq, Structural)]
pub struct MemgraphPerformanceConfig {
    pub use_analytical_mode: bool,
    pub connection_pool_size: u32,
    pub connection_timeout_ms: u64,
    pub query_timeout_ms: u64,
}

/// Retry settings of the graph client (the back-off base is kept by the
/// application).
#[derive(Debug, Clone, Copy, PartialEq, Eq, Structural)]
pub struct MemgraphRetryConfig {
    pub enabled: bool,
    pub max_attempts: u32,
    pub initial_delay_ms: u64,
    pub max_delay_ms: u64,
}

/// Memory monitoring of the graph database (the free threshold is kept by the
/// application).
#[derive(Debug, Clone, Copy, PartialEq, Eq, Structural)]
pub struct MemgraphMemoryConfig {
    pub monitor_interval_ms: u64,
}

#[derive(Debug, Clone)]
pub struct EmbeddingsConfig {
    pub enabled: bool,
    pub model: String,
    pub include_in_embedding: Vec<String>,
}

#[derive(Debug, Clone, Copy, PartialEq, Eq, Structural)]
pub struct PerformanceConfig {
    pub max_threads: usize,
    pub cache_size_mb: usize,
    pub incremental: bool,
}

#[derive(Debug, Clone)]
pub struct FrameworkConfig {
    pub enabled: bool,
    pub patterns_path: Option<String>,
    pub excluded_functions: Vec<String>,
    pub synthetic_call_generation: bool,
    pub custom_patterns: Vec<String>,
    pub supported_frameworks: Vec<String>,
}

#[derive(Debug, Clone)]
pub struct CrossCrateConfig {
    pub enabled: bool,
    pub global_index_path: Option<String>,
    pub use_cache: bool,
    pub incremental_updates: bool,
    pub max_index_memory_mb: usize,
}

#[derive(Debug, Clone)]
pub struct Config {
    pub workspace: WorkspaceConfig,
    pub analysis: AnalysisConfig,
    pub architecture: ArchitectureConfig,
    pub memgraph: MemgraphConfig,
    pub embeddings: EmbeddingsConfig,
    pub performance: PerformanceConfig,
    pub framework: FrameworkConfig,
    pub cross_crate: CrossCrateConfig,
}

pub fn default_true() -> (b: bool)
    ensures
        b,
{
    true
}

pub fn default_batch_size() -> (n: usize)
    ensures
        n == 1000,
{
    1000
}

pub fn default_embedding_model() -> (s: String)
    ensures
        s@ == "text-embedding-3-small"@,
{
    String::from_str("text-embedding-3-small")
}

/// The fields that go into an embedding by default.
pub open spec fn spec_default_embedding_fields() -> Seq<Seq<char>> {
    seq![
        "function_name"@,
        "module_path"@,
        "crate_name"@,
        "doc_comments"@,
        "parameter_types"@,
        "return_type"@,
    ]
}

pub fn default_embedding_fields() -> (v: Vec<String>)
    ensures
        views_of(v@) == spec_default_embedding_fields(),
{
    let mut v: Vec<String> = Vec::new();
    v.push(String::from_str("function_name"));
    v.push(String::from_str("module_path"));
    v.push(String::from_str("crate_name"));
    v.push(String::from_str("doc_comments"));
    v.push(String::from_str("parameter_types"));
    v.push(String::from_str("return_type"));
    assert(views_of(v@) =~= spec_default_embedding_fields());
    v
}

/// As many worker threads as the machine has logical CPUs (at least one).
pub fn default_max_threads() -> (n: usize)
    ensures
        n >= 1,
{
    available_cpus()
}

pub fn default_cache_size() -> (n: usize)
    ensures
        n == 100,
{
    100
}

pub fn default_connection_pool_size() -> (n: u32)
    ensures
        n == 4,
{
    4
}

pub fn default_connection_timeout_ms() -> (n: u64)
    ensures
        n == 5000,
{
    5000
}

pub fn default_query_timeout_ms() -> (n: u64)
    ensures
        n == 30000,
{
    30000
}

pub fn default_max_attempts() -> (n: u32)
    ensures
        n == 5,
{
    5
}

pub fn default_initial_delay_ms() -> (n: u64)
    ensures
        n == 100,
{
    100
}

pub fn default_max_delay_ms() -> (n: u64)
    ensures
        n == 5000,
{
    5000
}

pub fn default_monitor_interval_ms() -> (n: u64)
    ensures
        n == 60000,
{
    60000
}

pub fn default_framework_patterns_path() -> (p: Option<String>)
    ensures
        p is None,
{
    None
}

/// The frameworks whose patterns are applied by default.
pub open spec fn spec_default_supported_frameworks() -> Seq<Seq<char>> {
    seq!["tokio"@, "actix-web"@, "async-std"@, "websocket"@]
}

pub fn default_supported_frameworks() -> (v: Vec<String>)
    ensures
        views_of(v@) == spec_default_supported_frameworks(),
{
    let mut v: Vec<String> = Vec::new();
    v.push(String::from_str("tokio"));
    v.push(String::from_str("actix-web"));
    v.push(String::from_str("async-std"));
    v.push(String::from_str("websocket"));
    assert(views_of(v@) =~= spec_default_supported_frameworks());
    v
}

pub fn default_global_index_path() -> (p: Option<String>)
    ensures
        p is None,
{
    None
}

pub fn default_max_index_memory_mb() -> (n: usize)
    ensures
        n == 100,
{
    100
}

impl Default for MemgraphPerformanceConfig {
    fn default() -> (c: Self)
        ensures
            c.use_analytical_mode,
            c.connection_pool_size == 4,
            c.connection_timeout_ms == 5000,
            c.query_timeout_ms == 30000,
    {
        MemgraphPerformanceConfig {
            use_analytical_mode: default_true(),
            connection_pool_size: default_connection_pool_size(),
            connection_timeout_ms: default_connection_timeout_ms(),
            query_timeout_ms: default_query_timeout_ms(),
        }
    }
}

impl Default for MemgraphRetryConfig {
    fn default() -> (c: Self)
        ensures
            c.enabled,
            c.max_attempts == 5,
            c.initial_delay_ms == 100,
            c.max_delay_ms == 5000,
    {
        MemgraphRetryConfig {
            enabled: default_true(),
            max_attempts: default_max_attempts(),
            initial_delay_ms: default_initial_delay_ms(),
            max_delay_ms: default_max_delay_ms(),
        }
    }
}

impl Default for MemgraphMemoryConfig {
    fn default() -> (c: Self)
        ensures
            c.monitor_interval_ms == 60000,
    {
        MemgraphMemoryConfig { monitor_interval_ms: default_monitor_interval_ms() }
    }
}

/// The configuration that `Config::default` gives.
pub open spec fn is_default_config(c: Config) -> bool {
    c.workspace.root@ == "."@ && default_settings(c)
}

/// Every setting but the workspace root as `Config::default` gives it; the
/// thread count follows the machine and is at least one.
pub open spec fn default_settings(c: Config) -> bool {
    &&& c.workspace.additional_roots@.len() == 0
    &&& c.analysis.recursive_scan
    &&& c.analysis.include_dev_deps
    &&& !c.analysis.include_build_deps
    &&& c.analysis.workspace_members_only
    &&& c.analysis.exclude_crates@.len() == 0
    &&& c.architecture.layers@.len() == 0
    &&& c.memgraph.uri@ == "bolt://localhost:7687"@
    &&& c.memgraph.username@.len() == 0
    &&& c.memgraph.password@.len() == 0
    &&& !c.memgraph.clean_start
    &&& c.memgraph.batch_size == 1000
    &&& c.memgraph.performance == MemgraphPerformanceConfig {
        use_analytical_mode: true,
        connection_pool_size: 4,
        connection_timeout_ms: 5000,
        query_timeout_ms: 30000,
    }
    &&& c.memgraph.retry == MemgraphRetryConfig {
        enabled: true,
        max_attempts: 5,
        initial_delay_ms: 100,
        max_delay_ms: 5000,
    }
    &&& c.memgraph.memory == MemgraphMemoryConfig { monitor_interval_ms: 60000 }
    &&& c.embeddings.enabled
    &&& c.embeddings.model@ == "text-embedding-3-small"@
    &&& views_of(c.embeddings.include_in_embedding@) == spec_default_embedding_fields()
    &&& c.performance.max_threads >= 1
    &&& c.performance.cache_size_mb == 100
    &&& c.performance.incremental
    &&& c.framework.enabled
    &&& c.framework.patterns_path is None
    &&& c.framework.excluded_functions@.len() == 0
    &&& c.framework.synthetic_call_generation
    &&& c.framework.custom_patterns@.len() == 0
    &&& views_of(c.framework.supported_frameworks@) == spec_default_supported_frameworks()
    &&& c.cross_crate.enabled
    &&& c.cross_crate.global_index_path is None
    &&& c.cross_crate.use_cache
    &&& c.cross_crate.incremental_updates
    &&& c.cross_crate.max_index_memory_mb == 100
}

impl Default for Config {
    fn default() -> (c: Self)
        ensures
            is_default_config(c),
    {
        Config {
            workspace: WorkspaceConfig {
                root: String::from_str("."),
                additional_roots: Vec::new(),
            },
            analysis: AnalysisConfig {
                recursive_scan: true,
                include_dev_deps: true,
                include_build_deps: false,
                workspace_members_only: true,
                exclude_crates: Vec::new(),
            },
            architecture: ArchitectureConfig { layers: Vec::new() },
            memgraph: MemgraphConfig {
                uri: String::from_str("bolt://localhost:7687"),
                username: String::new(),
                password: String::new(),
                clean_start: false,
                batch_size: default_batch_size(),
                performance: MemgraphPerformanceConfig::default(),
                retry: MemgraphRetryConfig::default(),
                memory: MemgraphMemoryConfig::default(),
            },
            embeddings: EmbeddingsConfig {
                enabled: true,
                model: default_embedding_model(),
                include_in_embedding: default_embedding_fields(),
            },
            performance: PerformanceConfig {
                max_threads: default_max_threads(),
                cache_size_mb: default_cache_size(),
                incremental: true,
            },
            framework: FrameworkConfig {
                enabled: true,
                patterns_path: None,
                excluded_functions: Vec::new(),
                synthetic_call_generation: true,
                custom_patterns: Vec::new(),
                supported_frameworks: default_supported_frameworks(),
            },
            cross_crate: CrossCrateConfig {
                enabled: true,
                global_index_path: None,
                use_cache: true,
                incremental_updates: true,
                max_index_memory_mb: default_max_index_memory_mb(),
            },
        }
    }
}

/// The index of the highest layer that lists `c` among its crates; a crate
/// listed in several layers belongs to the last of them.
pub open spec fn layer_index(layers: Seq<Layer>, c: Seq<char>) -> Option<int>
    decreases layers.len(),
{
    if layers.len() == 0 {
        None
    } else if views_of(layers.last().crates@).contains(c) {
        Some(layers.len() - 1)
    } else {
        layer_index(layers.drop_last(), c)
    }
}

pub proof fn lemma_layer_index(layers: Seq<Layer>, c: Seq<char>)
    ensures
        match layer_index(layers, c) {
            Some(i) => 0 <= i < layers.len() && views_of(layers[i].crates@).contains(c) && forall|
                j: int,
            | i < j < layers.len() ==> !views_of(#[trigger] layers[j].crates@).contains(c),
            None => forall|j: int|
                0 <= j < layers.len() ==> !views_of(#[trigger] layers[j].crates@).contains(c),
        },
    decreases layers.len(),
{
    if layers.len() > 0 {
        lemma_layer_index(layers.drop_last(), c);
        assert forall|j: int| 0 <= j < layers.len() - 1 implies #[trigger] layers[j] == layers.drop_last()[j] by {}
    }
}

/// Whether `c` is one of `crates`.
fn lists_crate(crates: &Vec<String>, c: &str) -> (b: bool)
    ensures
        b == views_of(crates@).contains(c@),
{
    let mut i: usize = 0;
    while i < crates.len()
        invariant
            i <= crates@.len(),
            forall|j: int| 0 <= j < i ==> crates@[j]@ != c@,
        decreases crates@.len() - i,
    {
        if str_eq(crates[i].as_str(), c) {
            assert(views_of(crates@)[i as int] == c@);
            return true;
        }
        i = i + 1;
    }
    proof {
        if views_of(crates@).contains(c@) {
            let j = choose|j: int| 0 <= j < views_of(crates@).len() && views_of(crates@)[j] == c@;
            assert(crates@[j]@ == c@);
        }
    }
    false
}

/// Whether the call from `from` to `to` goes from a lower layer up to a higher
/// one: both crates belong to a layer and the caller's layer comes first.
pub open spec fn layer_violation(layers: Seq<Layer>, from: Seq<char>, to: Seq<char>) -> bool {
    match (layer_index(layers, from), layer_index(layers, to)) {
        (Some(a), Some(b)) => a < b,
        _ => false,
    }
}

/// Layer violations order the crates strictly: no crate violates the layering
/// by calling itself, a call and its reverse never both violate it, and a
/// violation followed by another makes a violation from the first crate to
/// the last.
pub proof fn lemma_layer_violation_strict_order(layers: Seq<Layer>, a: Seq<char>, b: Seq<char>, c: Seq<char>)
    ensures
        !layer_violation(layers, a, a),
        layer_violation(layers, a, b) ==> !layer_violation(layers, b, a),
        layer_violation(layers, a, b) && layer_violation(layers, b, c) ==> layer_violation(
            layers,
            a,
            c,
        ),
{
}

impl Config {
    /// The default configuration for the workspace at `workspace_root`.
    pub fn from_workspace_root(workspace_root: &str) -> (c: Config)
        ensures
            c.workspace.root@ == workspace_root@,
            default_settings(c),
    {
        let mut c = Config::default();
        c.workspace.root = String::from_str(workspace_root);
        c
    }

    /// The main workspace root followed by the additional roots.
    pub fn all_workspace_roots(&self) -> (r: Vec<String>)
        ensures
            views_of(r@) == seq![self.workspace.root@] + views_of(
                self.workspace.additional_roots@,
            ),
    {
        let mut r: Vec<String> = Vec::new();
        r.push(self.workspace.root.clone());
        let mut more = copy_strings(&self.workspace.additional_roots);
        let ghost (a, b) = (r@, more@);
        r.append(&mut more);
        assert(views_of(a + b) =~= views_of(a) + views_of(b));
        r
    }

    /// The layer that `crate_name` belongs to.
    pub fn get_layer_index(&self, crate_name: &str) -> (r: Option<usize>)
        ensures
            match r {
                Some(i) => layer_index(self.architecture.layers@, crate_name@) == Some(i as int),
                None => layer_index(self.architecture.layers@, crate_name@) is None,
            },
    {
        let layers = &self.architecture.layers;
        let mut i: usize = layers.len();
        assert(layers@.take(layers@.len() as int) =~= layers@);
        while i > 0
            invariant
                i <= layers@.len(),
                layers@ == self.architecture.layers@,
                layer_index(layers@, crate_name@) == layer_index(layers@.take(i as int), crate_name@),
            decreases i,
        {
            proof {
                let t = layers@.take(i as int);
                assert(t.drop_last() =~= layers@.take(i - 1));
                assert(t.last() == layers@[i - 1]);
            }
            if lists_crate(&layers[i - 1].crates, crate_name) {
                assert(layer_index(layers@.take(i as int), crate_name@) == Some(i - 1));
                return Some(i - 1);
            }
            i = i - 1;
        }
        None
    }

    /// The name of the layer at `index`.
    pub fn get_layer_name(&self, index: usize) -> (r: Option<&str>)
        ensures
            match r {
                Some(n) => index < self.architecture.layers@.len() && n@
                    == self.architecture.layers@[index as int].name@,
                None => index >= self.architecture.layers@.len(),
            },
    {
        if index < self.architecture.layers.len() {
            Some(self.architecture.layers[index].name.as_str())
        } else {
            None
        }
    }

    /// Whether a call from `from_crate` to `to_crate` breaks the layering.
    pub fn is_layer_violation(&self, from_crate: &str, to_crate: &str) -> (b: bool)
        ensures
            b == layer_violation(self.architecture.layers@, from_crate@, to_crate@),
    {
        match (self.get_layer_index(from_crate), self.get_layer_index(to_crate)) {
            (Some(a), Some(b)) => a < b,
            _ => false,
        }
    }
}

} // verus!
