//! Decisions of the hybrid analyzer, which runs the syntax-tree analysis and,
//! when a language server is at hand, enriches it: which strategy a run
//! takes, how results are cached and for how long, and the running averages
//! of its timings.
//!
//! The language server and the asynchronous runs are driven by the
//! application, which asks here what to do next.
use vstd::prelude::*;

use crate::global_index::current_time;
use crate::text::decimal;
use crate::text::decimal_string;

verus! {

/// How a run combines the syntax-tree analysis with the language server.
#[derive(Debug, Clone, Copy, PartialEq, Eq, Structural)]
pub enum AnalysisStrategy {
    /// The syntax tree alone.
    TreeSitterOnly,
    /// The syntax tree first, then the language server.
    Progressive,
    /// The syntax tree with what the language server has cached.
    CachedLspOnly,
    /// Cached server data when it covers enough, else progressive.
    HybridIntelligent,
    /// The syntax tree alone, with a diagnostic saying the server is missing.
    TreeSitterWithWarning,
}

/// Settings of the hybrid analyzer (durations in milliseconds; the
/// confidence threshold for cached server data is kept by the application).
#[derive(Debug, Clone, Copy, PartialEq, Eq, Structural)]
pub struct HybridConfig {
    pub default_strategy: AnalysisStrategy,
    pub enable_progressive_enhancement: bool,
    pub lsp_enhancement_timeout_ms: u64,
    pub fallback_on_lsp_failure: bool,
    pub enable_caching: bool,
    pub cache_ttl_ms: u64,
    pub max_lsp_enhancements_per_analysis: usize,
}

impl Default for HybridConfig {
    fn default() -> (c: Self)
        ensures
            c.default_strategy == AnalysisStrategy::Progressive,
            c.enable_progressive_enhancement,
            c.lsp_enhancement_timeout_ms == 10_000,
            c.fallback_on_lsp_failure,
            c.enable_caching,
            c.cache_ttl_ms == 300_000,
            c.max_lsp_enhancements_per_analysis == 200,
    {
        HybridConfig {
            default_strategy: AnalysisStrategy::Progressive,
            enable_progressive_enhancement: true,
            lsp_enhancement_timeout_ms: 10_000,
            fallback_on_lsp_failure: true,
            enable_caching: true,
            cache_ttl_ms: 300_000,
            max_lsp_enhancements_per_analysis: 200,
        }
    }
}

/// The strategy of a run: the configured one while the language server is
/// available; otherwise the syntax tree alone, with a warning when the
/// configuration asks to fall back.
pub open spec fn strategy_for(config: HybridConfig, lsp_available: bool) -> AnalysisStrategy {
    if !lsp_available {
        if config.fallback_on_lsp_failure {
            AnalysisStrategy::TreeSitterWithWarning
        } else {
            AnalysisStrategy::TreeSitterOnly
        }
    } else {
        config.default_strategy
    }
}

pub fn determine_analysis_strategy(config: &HybridConfig, lsp_available: bool) -> (s:
    AnalysisStrategy)
    ensures
        s == strategy_for(*config, lsp_available),
{
    if !lsp_available {
        if config.fallback_on_lsp_failure {
            AnalysisStrategy::TreeSitterWithWarning
        } else {
            AnalysisStrategy::TreeSitterOnly
        }
    } else {
        config.default_strategy
    }
}

/// Length of the time buckets of the cache key, in seconds.
pub const CACHE_KEY_BUCKET_SECS: u64 = 300;

/// The cache key of a workspace at a time: the root, `_`, and the number of
/// five-minute buckets since the epoch.
pub open spec fn cache_key_text(root: Seq<char>, secs: nat) -> Seq<char> {
    root + "_"@ + decimal(secs / (CACHE_KEY_BUCKET_SECS as nat))
}

/// The cache key of the workspace at `root` at `secs` seconds after the
/// epoch.
pub fn cache_key_for(root: &str, secs: u64) -> (k: String)
    ensures
        k@ == cache_key_text(root@, secs as nat),
{
    let k = String::from_str(root);
    let k = k.concat("_");
    let digits = decimal_string(secs / CACHE_KEY_BUCKET_SECS);
    k.concat(digits.as_str())
}

/// `SystemTime::duration_since(UNIX_EPOCH)`, in whole seconds; `None` for a
/// time before the epoch. Nothing else is stated: the time is opaque here.
#[verifier::external_body]
fn seconds_since_epoch(t: &std::time::SystemTime) -> Option<u64> {
    match t.duration_since(std::time::UNIX_EPOCH) {
        Ok(d) => Some(d.as_secs()),
        Err(_) => None,
    }
}

/// The cache key of the workspace at `root` now; `None` when the clock
/// stands before the epoch.
pub fn generate_cache_key(root: &str) -> (k: Option<String>)
    ensures
        match k {
            Some(key) => exists|secs: nat| key@ == cache_key_text(root@, secs),
            None => true,
        },
{
    let now = current_time();
    match seconds_since_epoch(&now) {
        Some(secs) => Some(cache_key_for(root, secs)),
        None => None,
    }
}

/// A cached result is used while it is younger than the time to live; one
/// whose age cannot be told (stored in the future) is not used.
pub fn cached_result_fresh(age_ms: Option<u64>, ttl_ms: u64) -> (b: bool)
    ensures
        b == match age_ms {
            Some(a) => a < ttl_ms,
            None => false,
        },
{
    match age_ms {
        Some(a) => a < ttl_ms,
        None => false,
    }
}

/// Entries the cache holds before it drops stale ones.
pub const CACHE_CLEANUP_THRESHOLD: usize = 100;

/// After a store, whether the cache drops stale entries.
pub fn cache_cleanup_needed(entries: usize) -> (b: bool)
    ensures
        b == (entries > CACHE_CLEANUP_THRESHOLD),
{
    entries > CACHE_CLEANUP_THRESHOLD
}

/// In a cleanup, an entry stays when it was stored less than the time to live
/// before now.
pub fn cache_entry_kept(stored_ms: u64, now_ms: u64, ttl_ms: u64) -> (b: bool)
    ensures
        b == (stored_ms + ttl_ms > now_ms),
{
    (stored_ms as u128) + (ttl_ms as u128) > (now_ms as u128)
}

/// Counts and average timings of the hybrid runs (milliseconds; the
/// percentages derived from them are computed by the application).
#[derive(Debug, Clone, Copy, PartialEq, Eq, Structural)]
pub struct HybridMetrics {
    pub total_analyses: u64,
    pub tree_sitter_only: u64,
    pub hybrid_analyses: u64,
    pub avg_tree_sitter_ms: u64,
    pub avg_lsp_enhancement_ms: u64,
}

/// The running average after the `n`-th value (`n` at least one).
pub open spec fn running_average(avg: int, n: int, value: int) -> int {
    (avg * (n - 1) + value) / n
}

/// The metrics can take one more run without overflow.
pub open spec fn metrics_can_record(m: HybridMetrics, lsp_available: bool, lsp_ms: u64, tree_ms: u64) -> bool {
    &&& m.total_analyses < u64::MAX
    &&& m.avg_tree_sitter_ms * m.total_analyses + tree_ms <= u64::MAX
    &&& lsp_available ==> m.hybrid_analyses < u64::MAX && m.avg_lsp_enhancement_ms
        * m.hybrid_analyses + lsp_ms <= u64::MAX
    &&& !lsp_available ==> m.tree_sitter_only < u64::MAX
}

impl HybridMetrics {
    pub fn new() -> (m: Self)
        ensures
            m.total_analyses == 0 && m.tree_sitter_only == 0 && m.hybrid_analyses == 0,
            m.avg_tree_sitter_ms == 0 && m.avg_lsp_enhancement_ms == 0,
    {
        HybridMetrics {
            total_analyses: 0,
            tree_sitter_only: 0,
            hybrid_analyses: 0,
            avg_tree_sitter_ms: 0,
            avg_lsp_enhancement_ms: 0,
        }
    }

    /// Counts one run and folds its timings into the averages: the server
    /// time only for a run that had the server.
    pub fn record_analysis(&mut self, lsp_available: bool, lsp_ms: u64, tree_ms: u64)
        requires
            metrics_can_record(*old(self), lsp_available, lsp_ms, tree_ms),
        ensures
            final(self).total_analyses == old(self).total_analyses + 1,
            final(self).avg_tree_sitter_ms == running_average(
                old(self).avg_tree_sitter_ms as int,
                old(self).total_analyses + 1,
                tree_ms as int,
            ),
            lsp_available ==> final(self).hybrid_analyses == old(self).hybrid_analyses + 1
                && final(self).tree_sitter_only == old(self).tree_sitter_only
                && final(self).avg_lsp_enhancement_ms == running_average(
                old(self).avg_lsp_enhancement_ms as int,
                old(self).hybrid_analyses + 1,
                lsp_ms as int,
            ),
            !lsp_available ==> final(self).tree_sitter_only == old(self).tree_sitter_only + 1
                && final(self).hybrid_analyses == old(self).hybrid_analyses
                && final(self).avg_lsp_enhancement_ms == old(self).avg_lsp_enhancement_ms,
    {
        self.total_analyses = self.total_analyses + 1;
        if lsp_available {
            self.hybrid_analyses = self.hybrid_analyses + 1;
            let n = self.hybrid_analyses;
            let sum = self.avg_lsp_enhancement_ms * (n - 1) + lsp_ms;
            self.avg_lsp_enhancement_ms = sum / n;
        } else {
            self.tree_sitter_only = self.tree_sitter_only + 1;
        }
        let n = self.total_analyses;
        let sum = self.avg_tree_sitter_ms * (n - 1) + tree_ms;
        self.avg_tree_sitter_ms = sum / n;
    }
}

/// Two moments in the same five-minute bucket give the workspace the same
/// cache key.
pub proof fn lemma_cache_key_stable_within_bucket(root: Seq<char>, s1: nat, s2: nat)
    requires
        s1 / (CACHE_KEY_BUCKET_SECS as nat) == s2 / (CACHE_KEY_BUCKET_SECS as nat),
    ensures
        cache_key_text(root, s1) == cache_key_text(root, s2),
{
}

/// Without the language server a run never takes a strategy that needs it.
pub proof fn lemma_no_server_strategy_without_server(config: HybridConfig)
    ensures
        strategy_for(config, false) == AnalysisStrategy::TreeSitterOnly || strategy_for(
            config,
            false,
        ) == AnalysisStrategy::TreeSitterWithWarning,
{
}

} // verus!
