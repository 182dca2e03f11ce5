use workspace_analyzer::incremental::calculate_content_hash;
use workspace_analyzer::incremental::crate_dependency_query;
use workspace_analyzer::incremental::file_deletion_queries;
use workspace_analyzer::incremental::is_rust_file;
use workspace_analyzer::incremental::name_set;
use workspace_analyzer::incremental::should_forward_event;
use workspace_analyzer::incremental::FileEventKind;
use workspace_analyzer::incremental::FileState;
use workspace_analyzer::incremental::IncrementalState;
use workspace_analyzer::incremental::Timestamp;

fn file_state(path: &str, hash: &str, symbols: usize, analyzed: u64) -> FileState {
    FileState {
        path: path.to_string(),
        hash: hash.to_string(),
        last_modified: Timestamp { secs: 1, nanos: 0 },
        symbols_extracted: symbols,
        functions: name_set(&["a::f".to_string()]),
        types: name_set(&[]),
        last_analyzed: Timestamp { secs: analyzed, nanos: 0 },
    }
}

#[test]
fn test_is_rust_file() {
    assert!(is_rust_file(&["test.rs".to_string()]));
    assert!(is_rust_file(&["src/lib.rs".to_string()]));
    assert!(!is_rust_file(&["test.txt".to_string()]));
    assert!(!is_rust_file(&["Cargo.toml".to_string()]));
}

#[test]
fn test_file_hash_calculation() {
    let hash1 = calculate_content_hash(b"fn test() {}");
    let hash2 = calculate_content_hash(b"fn test() {}");
    assert_eq!(hash1, hash2);
    let hash3 = calculate_content_hash(b"fn test() { println!(\"modified\"); }");
    assert_ne!(hash1, hash3);
    assert_eq!(hash1.len(), 64);
    assert!(hash1.chars().all(|c| c.is_ascii_hexdigit() && !c.is_ascii_uppercase()));
}

#[test]
fn rust_file_edge_cases() {
    assert!(!is_rust_file(&[".rs".to_string()]));
    assert!(!is_rust_file(&[]));
    assert!(is_rust_file(&["a.txt".to_string(), "b/c.rs".to_string()]));
    assert!(!is_rust_file(&["dir.rs/..".to_string()]));
}

#[test]
fn events_forwarded_only_for_rust_changes() {
    let rs = vec!["src/main.rs".to_string()];
    assert!(should_forward_event(FileEventKind::Modify, &rs));
    assert!(should_forward_event(FileEventKind::Remove, &rs));
    assert!(!should_forward_event(FileEventKind::Other, &rs));
    assert!(!should_forward_event(FileEventKind::Create, &["README.md".to_string()]));
}

#[test]
fn state_tracks_files_and_statistics() {
    let mut state = IncrementalState::new();
    assert!(state.needs_update("a.rs", "h1"));
    state.record_file(file_state("a.rs", "h1", 5, 10));
    state.record_file(file_state("b.rs", "h2", 7, 30));
    assert!(!state.needs_update("a.rs", "h1"));
    assert!(state.needs_update("a.rs", "h9"));
    assert!(state.is_outdated("b.rs", None));
    assert!(!state.is_outdated("b.rs", Some("h2")));
    state.set_crate_dependencies("core", &["serde".to_string(), "tokio".to_string()]);
    let stats = state.statistics();
    assert_eq!(stats.tracked_files, 2);
    assert_eq!(stats.total_symbols, 12);
    assert_eq!(stats.last_update, Timestamp { secs: 30, nanos: 0 });
    assert_eq!(stats.crates_tracked, 1);
    let removed = state.remove_file("a.rs").unwrap();
    assert_eq!(removed.symbols_extracted, 5);
    assert!(state.remove_file("a.rs").is_none());
    assert_eq!(state.statistics().total_symbols, 7);
    state.clear();
    assert_eq!(state.statistics().tracked_files, 0);
    assert_eq!(state.statistics().last_update, Timestamp::epoch());
}

#[test]
fn graph_statements_for_a_file() {
    let q = file_deletion_queries("src/x.rs");
    assert_eq!(q.len(), 5);
    assert_eq!(q[0], "MATCH ()-[r:CALLS]->() WHERE r.file = 'src/x.rs' DELETE r");
    assert_eq!(q[4], "MATCH (m:Module) WHERE m.file = 'src/x.rs' DETACH DELETE m");
    assert!(crate_dependency_query("core").starts_with("MATCH (c:Crate {name: 'core'})"));
}
