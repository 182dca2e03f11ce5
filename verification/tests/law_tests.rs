use workspace_analyzer::architecture::generate_summary;
use workspace_analyzer::architecture::ArchitectureViolation;
use workspace_analyzer::architecture::ViolationSeverity;
use workspace_analyzer::config::Config;
use workspace_analyzer::config::Layer;
use workspace_analyzer::global_index::CrateExports;
use workspace_analyzer::global_index::GlobalSymbolIndex;
use workspace_analyzer::hybrid::cache_key_for;
use workspace_analyzer::pool::ConnectionHealth;
use workspace_analyzer::pool::ConnectionTracker;
use workspace_analyzer::resolution::levenshtein_distance;
use workspace_analyzer::table::NameTable;

#[test]
fn edit_distance_is_symmetric() {
    assert_eq!(levenshtein_distance("kitten", "sitting"), levenshtein_distance("sitting", "kitten"));
    assert_eq!(levenshtein_distance("flaw", "lawn"), 2);
    assert_eq!(levenshtein_distance("lawn", "flaw"), 2);
    assert_eq!(levenshtein_distance("same", "same"), 0);
}

#[test]
fn layer_violations_order_crates_strictly() {
    let mut c = Config::default();
    c.architecture.layers = vec![
        Layer { name: "low".to_string(), crates: vec!["a".to_string()] },
        Layer { name: "mid".to_string(), crates: vec!["b".to_string()] },
        Layer { name: "high".to_string(), crates: vec!["c".to_string()] },
    ];
    assert!(!c.is_layer_violation("b", "b"));
    assert!(c.is_layer_violation("a", "b"));
    assert!(!c.is_layer_violation("b", "a"));
    assert!(c.is_layer_violation("b", "c"));
    assert!(c.is_layer_violation("a", "c"));
}

#[test]
fn table_reads_back_writes() {
    let mut t: NameTable<u32> = NameTable::new();
    t.insert("x".to_string(), 1);
    t.insert("y".to_string(), 2);
    t.insert("x".to_string(), 3);
    assert_eq!(t.get("x"), Some(&3));
    assert_eq!(t.get("y"), Some(&2));
    assert_eq!(t.len(), 2);
    assert_eq!(t.remove("x"), Some(3));
    assert!(!t.contains_key("x"));
    assert_eq!(t.get("y"), Some(&2));
    t.clear();
    assert!(t.is_empty());
}

#[test]
fn cache_keys_agree_within_a_bucket() {
    assert_eq!(cache_key_for("/w", 600), cache_key_for("/w", 899));
    assert_ne!(cache_key_for("/w", 899), cache_key_for("/w", 900));
}

#[test]
fn connection_health_follows_failures_in_a_row() {
    let mut t = ConnectionTracker::new(0);
    assert_eq!(t.health, ConnectionHealth::Healthy);
    for _ in 0..3 {
        t.mark_failure();
        assert_eq!(t.health, ConnectionHealth::Degraded);
    }
    t.mark_failure();
    assert_eq!(t.health, ConnectionHealth::Failed);
    t.mark_success();
    assert_eq!(t.health, ConnectionHealth::Healthy);
    assert_eq!(t.consecutive_failures, 0);
}

fn violation(severity: ViolationSeverity) -> ArchitectureViolation {
    ArchitectureViolation {
        kind: "layer_violation".to_string(),
        from: "f".to_string(),
        to: "g".to_string(),
        from_layer: "core".to_string(),
        to_layer: "app".to_string(),
        from_crate: "core-lib".to_string(),
        to_crate: "app-lib".to_string(),
        file: "x.rs".to_string(),
        line: 1,
        severity,
        message: "m".to_string(),
    }
}

#[test]
fn severity_counts_add_up() {
    let vs = vec![
        violation(ViolationSeverity::Error),
        violation(ViolationSeverity::Warning),
        violation(ViolationSeverity::Info),
        violation(ViolationSeverity::Error),
    ];
    let s = generate_summary(&vs);
    assert_eq!(s.error_count + s.warning_count + s.info_count, s.total_violations);
    assert_eq!(s.error_count, 2);
}

fn exports_for(crate_name: &str, function: &str) -> CrateExports {
    CrateExports {
        crate_name: crate_name.to_string(),
        public_functions: vec![function.to_string()],
        public_types: vec![],
        public_traits: vec![],
        re_exports: NameTable::new(),
        glob_exports: vec![],
    }
}

#[test]
fn recorded_exports_read_back_after_other_changes() {
    let mut index = GlobalSymbolIndex::new("/ws".to_string());
    assert!(index.get_crate_exports("engine").is_none());
    index.add_crate_exports(exports_for("engine", "open"));
    index.add_crate_exports(exports_for("book", "depth"));
    index.index_crate_symbols(
        "feed",
        &workspace_analyzer::indexing::ParsedSymbolSet {
            functions: vec![],
            types: vec![],
            impls: vec![],
            calls: vec![],
        },
    );
    let e = index.get_crate_exports("engine").unwrap();
    assert_eq!(e.crate_name, "engine");
    assert_eq!(e.public_functions, vec!["open".to_string()]);
    assert!(index.get_crate_exports("absent").is_none());
    index.add_crate_exports(exports_for("engine", "close"));
    assert_eq!(index.get_crate_exports("engine").unwrap().public_functions, vec!["close".to_string()]);
    index.clear();
    assert!(index.get_crate_exports("engine").is_none());
}
