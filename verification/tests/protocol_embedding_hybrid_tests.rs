use workspace_analyzer::analysis::is_spawn_in_test_context_logic;
use workspace_analyzer::analysis::select_crates_to_analyze;
use workspace_analyzer::analysis::WorkspaceCrate;
use workspace_analyzer::config::Config;
use workspace_analyzer::embeddings::calculate_signature_complexity;
use workspace_analyzer::embeddings::calculate_type_complexity;
use workspace_analyzer::embeddings::embedding_dimension;
use workspace_analyzer::embeddings::extract_function_embeddings;
use workspace_analyzer::embeddings::extract_type_embeddings;
use workspace_analyzer::embeddings::search_result_identity;
use workspace_analyzer::embeddings::EmbeddingMetadata;
use workspace_analyzer::embeddings::SearchResultType;
use workspace_analyzer::embeddings::EmbeddingFunction;
use workspace_analyzer::embeddings::EmbeddingGenerator;
use workspace_analyzer::embeddings::EmbeddingType;
use workspace_analyzer::hybrid::cache_cleanup_needed;
use workspace_analyzer::hybrid::cache_entry_kept;
use workspace_analyzer::hybrid::cache_key_for;
use workspace_analyzer::hybrid::cached_result_fresh;
use workspace_analyzer::hybrid::determine_analysis_strategy;
use workspace_analyzer::hybrid::generate_cache_key;
use workspace_analyzer::hybrid::AnalysisStrategy;
use workspace_analyzer::hybrid::HybridConfig;
use workspace_analyzer::hybrid::HybridMetrics;
use workspace_analyzer::mcp_protocol::parse_error_message;
use workspace_analyzer::mcp_protocol::route_error;
use workspace_analyzer::mcp_protocol::route_request;
use workspace_analyzer::mcp_protocol::workspace_tools;
use workspace_analyzer::mcp_protocol::JsonRpcRoute;
use workspace_analyzer::mcp_protocol::INVALID_PARAMS;
use workspace_analyzer::mcp_protocol::METHOD_NOT_FOUND;

fn create_test_function() -> EmbeddingFunction {
    EmbeddingFunction {
        id: "test:crate::test_fn:10".to_string(),
        qualified_name: "crate::test_fn".to_string(),
        crate_name: "test_crate".to_string(),
        module: "crate".to_string(),
        file_path: "src/lib.rs".to_string(),
        visibility: "pub".to_string(),
        doc_comment: Some("Test function".to_string()),
        parameters: vec!["x: i32".to_string()],
        return_type: Some("i32".to_string()),
        is_generic: false,
        is_async: false,
        is_unsafe: false,
        embedding_text: None,
    }
}

#[test]
fn test_complexity_calculation() {
    let function = create_test_function();
    let complexity = calculate_signature_complexity(&function);
    assert!(complexity > 0);
    assert_eq!(complexity, 2);
}

#[test]
fn complexity_counts_every_feature() {
    let mut f = create_test_function();
    f.is_generic = true;
    f.is_async = true;
    f.is_unsafe = true;
    f.parameters.push("y: u8".to_string());
    assert_eq!(calculate_signature_complexity(&f), 7);
    f.return_type = None;
    f.parameters.clear();
    assert_eq!(calculate_signature_complexity(&f), 4);
    let t = EmbeddingType {
        id: "t".to_string(),
        qualified_name: "c::T".to_string(),
        crate_name: "c".to_string(),
        module: "c".to_string(),
        file_path: "t.rs".to_string(),
        visibility: "pub".to_string(),
        doc_comment: None,
        fields: vec!["a".to_string(), "b".to_string()],
        variants: vec!["V".to_string()],
        methods: vec!["m".to_string()],
        is_generic: true,
        embedding_text: Some("type T".to_string()),
    };
    assert_eq!(calculate_type_complexity(&t), 6);
    let types = extract_type_embeddings(&vec![t]);
    assert_eq!(types.len(), 1);
    assert_eq!(types[0].metadata.signature_complexity, 6);
    assert!(!types[0].metadata.doc_available);
}

#[test]
fn only_functions_with_text_are_embedded() {
    let mut with_text = create_test_function();
    with_text.embedding_text = Some("function: test_fn".to_string());
    let without = create_test_function();
    let records = extract_function_embeddings(&vec![without, with_text]);
    assert_eq!(records.len(), 1);
    assert_eq!(records[0].function_id, "test:crate::test_fn:10");
    assert_eq!(records[0].embedding_text, "function: test_fn");
    assert_eq!(records[0].metadata.module, "crate");
    assert!(records[0].metadata.doc_available);
    assert_eq!(records[0].metadata.signature_complexity, 2);
}

#[test]
fn embedding_models_and_dimensions() {
    let config = Config::default();
    let g = EmbeddingGenerator::new(&config);
    assert_eq!(g.model, "text-embedding-3-small");
    assert_eq!(embedding_dimension("text-embedding-3-small"), Ok(1536));
    assert_eq!(embedding_dimension("local"), Ok(384));
    assert_eq!(
        embedding_dimension("bert"),
        Err("Unsupported embedding model: bert".to_string())
    );
}

#[test]
fn jsonrpc_routes_and_errors() {
    assert_eq!(route_request(Some("initialize"), false), JsonRpcRoute::Initialize);
    assert_eq!(route_request(Some("tools/list"), false), JsonRpcRoute::ListTools);
    assert_eq!(route_request(Some("tools/call"), true), JsonRpcRoute::CallTool);
    assert_eq!(route_request(Some("tools/call"), false), JsonRpcRoute::InvalidParams);
    assert_eq!(route_request(Some("shutdown"), true), JsonRpcRoute::MethodNotFound);
    assert_eq!(route_request(None, true), JsonRpcRoute::MethodNotFound);
    assert_eq!(
        route_error(JsonRpcRoute::MethodNotFound, "shutdown"),
        Some((METHOD_NOT_FOUND, "Method not found: shutdown".to_string()))
    );
    assert_eq!(
        route_error(JsonRpcRoute::InvalidParams, "tools/call"),
        Some((INVALID_PARAMS, "Invalid params".to_string()))
    );
    assert_eq!(route_error(JsonRpcRoute::ListTools, "tools/list"), None);
    assert_eq!(parse_error_message("EOF"), "Parse error: EOF");
    let tools = workspace_tools();
    assert_eq!(tools.len(), 7);
    assert_eq!(tools[0].name, "workspace_context");
    assert_eq!(tools[1].arguments[0].name, "target");
    assert!(tools[1].arguments[0].required);
    assert!(!tools[4].arguments[0].required);
    assert_eq!(tools[6].name, "analyze_test_coverage");
}

#[test]
fn hybrid_strategy_and_cache() {
    let mut config = HybridConfig::default();
    assert_eq!(determine_analysis_strategy(&config, true), AnalysisStrategy::Progressive);
    assert_eq!(determine_analysis_strategy(&config, false), AnalysisStrategy::TreeSitterWithWarning);
    config.fallback_on_lsp_failure = false;
    assert_eq!(determine_analysis_strategy(&config, false), AnalysisStrategy::TreeSitterOnly);
    assert_eq!(cache_key_for("/ws", 1_700_000_123), "/ws_5666667");
    assert_eq!(cache_key_for("/ws", 299), "/ws_0");
    assert_eq!(cache_key_for("/ws", 300), "/ws_1");
    assert!(cached_result_fresh(Some(10), 300_000));
    assert!(!cached_result_fresh(Some(300_000), 300_000));
    assert!(!cached_result_fresh(None, 300_000));
    assert!(!cache_cleanup_needed(100));
    assert!(cache_cleanup_needed(101));
    assert!(cache_entry_kept(1_000, 1_200, 300));
    assert!(!cache_entry_kept(1_000, 1_300, 300));
}

#[test]
fn hybrid_test_cache_key_generation() {
    let key1 = generate_cache_key("/tmp/ws").unwrap();
    let key2 = generate_cache_key("/tmp/ws").unwrap();
    // Keys are the same within the same 5-minute bucket
    assert_eq!(key1, key2);
    assert!(key1.starts_with("/tmp/ws_"));
}

#[test]
fn test_metrics_initialization() {
    let metrics = HybridMetrics::new();
    assert_eq!(metrics.total_analyses, 0);
    assert_eq!(metrics.tree_sitter_only, 0);
    assert_eq!(metrics.hybrid_analyses, 0);
}

#[test]
fn metrics_keep_running_averages() {
    let mut m = HybridMetrics::new();
    m.record_analysis(false, 0, 100);
    m.record_analysis(true, 40, 200);
    m.record_analysis(true, 61, 301);
    assert_eq!(m.total_analyses, 3);
    assert_eq!(m.tree_sitter_only, 1);
    assert_eq!(m.hybrid_analyses, 2);
    assert_eq!(m.avg_tree_sitter_ms, 200);
    assert_eq!(m.avg_lsp_enhancement_ms, 50);
}

#[test]
fn spawns_in_test_code() {
    assert!(is_spawn_in_test_context_logic("crate::tests::spawn_it", "src/lib.rs"));
    assert!(is_spawn_in_test_context_logic("crate::run", "tests/integration.rs"));
    assert!(is_spawn_in_test_context_logic("crate::setup_actor", "src/lib.rs"));
    assert!(is_spawn_in_test_context_logic("crate::make_mock_actor", "src/lib.rs"));
    assert!(!is_spawn_in_test_context_logic("crate::run", "src/lib.rs"));
    assert!(!is_spawn_in_test_context_logic("crate::mock::run", "src/lib.rs"));
}

#[test]
fn crate_selection_follows_membership_setting() {
    let crates = vec![
        WorkspaceCrate { name: "a".to_string(), path: "/a".to_string(), is_workspace_member: true },
        WorkspaceCrate { name: "ext".to_string(), path: "/e".to_string(), is_workspace_member: false },
        WorkspaceCrate { name: "b".to_string(), path: "/b".to_string(), is_workspace_member: true },
    ];
    let mut config = Config::default();
    config.analysis.workspace_members_only = true;
    let chosen: Vec<String> = select_crates_to_analyze(&config, &crates).into_iter().map(|c| c.name).collect();
    assert_eq!(chosen, vec!["a", "b"]);
    config.analysis.workspace_members_only = false;
    assert_eq!(select_crates_to_analyze(&config, &crates).len(), 3);
}

#[test]
fn search_hits_are_named_by_module_and_kind() {
    let metadata = EmbeddingMetadata {
        crate_name: "c".to_string(),
        module: "c::book".to_string(),
        file_path: "b.rs".to_string(),
        visibility: "pub".to_string(),
        doc_available: false,
        signature_complexity: 1,
    };
    let (name, kind) = search_result_identity("fn:insert", &metadata);
    assert_eq!(name, "c::book::fn:insert");
    assert_eq!(kind, SearchResultType::Function);
    let (_, kind) = search_result_identity("type:Book", &metadata);
    assert_eq!(kind, SearchResultType::Type);
}
