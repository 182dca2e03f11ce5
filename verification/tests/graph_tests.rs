use workspace_analyzer::config::Config;
use workspace_analyzer::config::Layer;
use workspace_analyzer::graph::call_edge_plan;
use workspace_analyzer::graph::categorize_error;
use workspace_analyzer::graph::clear_in_batches;
use workspace_analyzer::graph::synthetic_call_plan;
use workspace_analyzer::graph::unwind_insert_query;
use workspace_analyzer::graph::GraphStatistics;
use workspace_analyzer::graph::categorize_message;
use workspace_analyzer::graph::convert_to_snake_case;
use workspace_analyzer::graph::deadlock_retry_delay;
use workspace_analyzer::graph::expansion_call_edges;
use workspace_analyzer::graph::find_containing_function;
use workspace_analyzer::graph::find_indicator_new_functions;
use workspace_analyzer::graph::generate_indicator_function_ids;
use workspace_analyzer::graph::merge_impl_methods;
use workspace_analyzer::graph::relationship_batch_size;
use workspace_analyzer::graph::retry_after_failure;
use workspace_analyzer::graph::send_edge_plan;
use workspace_analyzer::graph::should_switch_to_analytical;
use workspace_analyzer::graph::CallEdgeMatch;
use workspace_analyzer::graph::ErrorCategory;
use workspace_analyzer::graph::GraphCall;
use workspace_analyzer::graph::GraphFunction;
use workspace_analyzer::graph::GraphImplBlock;
use workspace_analyzer::graph::MacroExpansionSite;
use workspace_analyzer::graph::MemgraphError;
use workspace_analyzer::graph::MessageSendSite;
use workspace_analyzer::graph::StorageMode;
use workspace_analyzer::graph::StorageProbe;

fn gf(id: &str, name: &str, qualified: &str, krate: &str, module: &str, file: &str, start: usize, end: usize, trait_impl: bool) -> GraphFunction {
    GraphFunction {
        id: id.to_string(),
        name: name.to_string(),
        qualified_name: qualified.to_string(),
        crate_name: krate.to_string(),
        module: module.to_string(),
        file_path: file.to_string(),
        line_start: start,
        line_end: end,
        is_trait_impl: trait_impl,
    }
}

fn category(msg: &str) -> ErrorCategory {
    match categorize_message(msg.to_string()) {
        MemgraphError::Connection(_) => ErrorCategory::Connection,
        MemgraphError::Query(_) => ErrorCategory::Query,
        MemgraphError::Transaction(_) => ErrorCategory::Transaction,
        MemgraphError::ConstraintViolation(_) => ErrorCategory::ConstraintViolation,
        MemgraphError::Timeout(_) => ErrorCategory::Timeout,
        MemgraphError::Deadlock(_) => ErrorCategory::Deadlock,
        MemgraphError::StorageMode(_) => ErrorCategory::StorageMode,
        MemgraphError::Memory(_) => ErrorCategory::Memory,
        MemgraphError::Index(_) => ErrorCategory::Index,
        MemgraphError::SyntheticCallError(_) => ErrorCategory::SyntheticCall,
    }
}

#[test]
fn errors_are_categorized_by_first_matching_rule() {
    assert_eq!(category("connection refused"), ErrorCategory::Connection);
    assert_eq!(category("Connection lost during deadlock"), ErrorCategory::Connection);
    assert_eq!(category("deadlock detected"), ErrorCategory::Deadlock);
    assert_eq!(category("query Timeout"), ErrorCategory::Timeout);
    assert_eq!(category("Constraint failed"), ErrorCategory::ConstraintViolation);
    assert_eq!(category("transaction aborted"), ErrorCategory::Transaction);
    assert_eq!(category("cannot change STORAGE MODE"), ErrorCategory::StorageMode);
    assert_eq!(category("out of memory"), ErrorCategory::Memory);
    assert_eq!(category("Index missing"), ErrorCategory::Index);
    assert_eq!(category("syntax error"), ErrorCategory::Query);
    assert_eq!(categorize_message("boom".to_string()).describe(), "Query execution error: boom");
    assert_eq!(MemgraphError::Deadlock("x".to_string()).describe(), "Deadlock detected: x");
    assert_eq!(
        MemgraphError::SyntheticCallError("y".to_string()).describe(),
        "Synthetic call creation error: y"
    );
}

#[test]
fn retries_only_transient_failures() {
    assert!(retry_after_failure(true, "TransientError: conflict", 0, 3));
    assert!(retry_after_failure(true, "request timeout", 2, 3));
    assert!(!retry_after_failure(true, "request timeout", 3, 3));
    assert!(!retry_after_failure(true, "syntax error", 0, 3));
    assert!(!retry_after_failure(false, "deadlock", 0, 3));
    assert_eq!(deadlock_retry_delay("deadlock found", 1), Some(200));
    assert_eq!(deadlock_retry_delay("conflicting transactions", 2), Some(400));
    assert_eq!(deadlock_retry_delay("deadlock found", 3), None);
    assert_eq!(deadlock_retry_delay("other", 1), None);
}

#[test]
fn storage_mode_switch_decisions() {
    assert_eq!(StorageMode::InMemoryAnalytical.as_cypher(), "IN_MEMORY_ANALYTICAL");
    assert_eq!(StorageMode::InMemoryTransactional.as_cypher(), "IN_MEMORY_TRANSACTIONAL");
    assert!(should_switch_to_analytical(&StorageProbe::Mode("IN_MEMORY_TRANSACTIONAL".to_string())));
    assert!(!should_switch_to_analytical(&StorageProbe::Mode("UNKNOWN".to_string())));
    assert!(!should_switch_to_analytical(&StorageProbe::Mode("IN_MEMORY_ANALYTICAL".to_string())));
    assert!(should_switch_to_analytical(&StorageProbe::NoRow));
    assert!(!should_switch_to_analytical(&StorageProbe::Failed(
        "not allowed in multicommand transaction".to_string()
    )));
    assert!(should_switch_to_analytical(&StorageProbe::Failed("network down".to_string())));
    assert!(StorageMode::InMemoryAnalytical.is_current(Some("mode IN_MEMORY_ANALYTICAL")));
    assert!(!StorageMode::InMemoryAnalytical.is_current(None));
}

#[test]
fn call_edges_pick_the_lookup_and_layering() {
    let mut config = Config::default();
    config.architecture.layers = vec![
        Layer { name: "core".to_string(), crates: vec!["core".to_string()] },
        Layer { name: "app".to_string(), crates: vec!["app".to_string()] },
    ];
    let synthetic = GraphCall {
        caller_id: "trading_ta::alma::compute".to_string(),
        callee_name: "new".to_string(),
        qualified_callee: Some("trading_ta::alma::Alma::new".to_string()),
        from_crate: "core".to_string(),
        to_crate: Some("app".to_string()),
        line: 7,
        call_type: "Direct".to_string(),
        cross_crate: true,
        is_synthetic: true,
    };
    let p = call_edge_plan(&config, &synthetic);
    assert_eq!(p.matching, CallEdgeMatch::SyntheticOrCreate);
    assert_eq!(p.callee, "trading_ta::alma::Alma::new");
    assert_eq!(p.callee_suffix, Some("::alma::Alma::new".to_string()));
    assert_eq!(p.caller_crate, Some("trading_ta".to_string()));
    assert!(p.violates_architecture);

    let mut short = synthetic.clone();
    short.qualified_callee = None;
    short.callee_name = "helper".to_string();
    short.to_crate = None;
    let p = call_edge_plan(&config, &short);
    assert_eq!(p.callee_suffix, Some("::helper".to_string()));
    assert!(!p.violates_architecture);

    let mut plain = synthetic.clone();
    plain.is_synthetic = false;
    plain.from_crate = "app".to_string();
    plain.to_crate = Some("core".to_string());
    let p = call_edge_plan(&config, &plain);
    assert_eq!(p.matching, CallEdgeMatch::QualifiedName);
    assert_eq!(p.callee_suffix, None);
    assert!(!p.violates_architecture);

    plain.qualified_callee = None;
    let p = call_edge_plan(&config, &plain);
    assert_eq!(p.matching, CallEdgeMatch::NameInCallerCrate);
    assert_eq!(p.callee, "new");

    config.memgraph.batch_size = 40;
    assert_eq!(relationship_batch_size(&config), 40);
    config.memgraph.batch_size = 1000;
    assert_eq!(relationship_batch_size(&config), 100);
}

#[test]
fn message_sends_with_unknown_ends_are_skipped() {
    let send = MessageSendSite {
        sender_actor: "Trader".to_string(),
        receiver_actor: "DistributedBook".to_string(),
        message_type: "PlaceOrder".to_string(),
        send_method: "tell".to_string(),
        file_path: "a.rs".to_string(),
        line: 3,
        from_crate: "core".to_string(),
    };
    assert_eq!(send_edge_plan(&send).map(|p| p.is_distributed), Some(true));
    let mut local = send.clone();
    local.receiver_actor = "Book".to_string();
    assert_eq!(send_edge_plan(&local).map(|p| p.is_distributed), Some(false));
    let mut unknown = send.clone();
    unknown.sender_actor = "Unknown".to_string();
    assert!(send_edge_plan(&unknown).is_none());
    let mut unknown_msg = send.clone();
    unknown_msg.message_type = "Unknown".to_string();
    assert!(send_edge_plan(&unknown_msg).is_none());
}

#[test]
fn impl_methods_merge_into_function_list() {
    let functions = vec![
        gf("a", "run", "c::S::run", "c", "c", "a.rs", 10, 20, false),
        gf("b", "stop", "c::S::stop", "c", "c", "a.rs", 30, 40, true),
    ];
    let impls = vec![GraphImplBlock {
        self_type: "S".to_string(),
        trait_name: Some("T".to_string()),
        methods: vec![
            gf("a2", "run", "c::S::run", "c", "c", "a.rs", 14, 20, true),
            gf("x", "new", "c::S::new", "c", "c", "a.rs", 50, 55, false),
            gf("b2", "stop", "c::S::stop", "c", "c", "a.rs", 36, 40, false),
            gf("x2", "new", "c::S::new", "c", "c", "a.rs", 52, 55, true),
        ],
    }];
    let merged = merge_impl_methods(functions, &impls);
    let ids: Vec<&str> = merged.iter().map(|f| f.id.as_str()).collect();
    assert_eq!(ids, vec!["a", "b", "x", "b2"]);
    assert!(merged[0].is_trait_impl);
    assert!(merged[1].is_trait_impl);
    assert!(merged[2].is_trait_impl);
    assert!(!merged[3].is_trait_impl);
}

#[test]
fn macro_expansions_are_attributed_to_functions() {
    let functions = vec![
        gf("ta::types::indicator_types::compute_batch_parallel", "compute_batch_parallel", "q", "trading-ta", "types", "other.rs", 1, 5, false),
        gf("ta::outer", "outer", "q", "trading-ta", "m", "src/lib.rs", 10, 30, false),
        gf("ta::indicators::alma::new", "new", "q", "trading-ta", "trading_ta::indicators::alma", "alma.rs", 1, 9, false),
        gf("ta::indicators::rsi::new", "new", "q", "trading-ta", "indicators.rsi", "rsi.rs", 1, 9, false),
        gf("ta::other::new", "new", "q", "trading-ta", "other", "o.rs", 1, 9, false),
    ];
    let inside = MacroExpansionSite {
        crate_name: "trading-ta".to_string(),
        file_path: "src/lib.rs".to_string(),
        line: 12,
        macro_type: "paste".to_string(),
        expansion_pattern: "indicator".to_string(),
    };
    assert_eq!(find_containing_function(&inside, &functions), Some("ta::outer".to_string()));

    let mut indicator_file = inside.clone();
    indicator_file.file_path = "src/types/indicator_types.rs".to_string();
    assert_eq!(
        find_containing_function(&indicator_file, &functions),
        Some("ta::types::indicator_types::compute_batch_parallel".to_string())
    );
    assert_eq!(
        find_containing_function(&indicator_file, &functions[1..].to_vec()),
        Some("trading_ta::types::indicator_types::compute_batch_parallel".to_string())
    );
    let mut elsewhere = inside.clone();
    elsewhere.file_path = "src/other.rs".to_string();
    assert_eq!(find_containing_function(&elsewhere, &functions), None);

    let constructors = find_indicator_new_functions(&functions, "trading-ta");
    let ids: Vec<&str> = constructors.iter().map(|f| f.id.as_str()).collect();
    assert_eq!(ids, vec!["ta::indicators::alma::new", "ta::indicators::rsi::new"]);
    assert!(find_indicator_new_functions(&functions, "other").is_empty());

    let edges = expansion_call_edges(&vec![inside.clone(), elsewhere], &functions);
    assert_eq!(edges.len(), 2);
    assert_eq!(edges[0].caller_id, "ta::outer");
    assert_eq!(edges[0].target_id, "ta::indicators::alma::new");
    assert_eq!(edges[1].target_id, "ta::indicators::rsi::new");
    assert_eq!(edges[1].macro_line, 12);
    assert_eq!(edges[1].macro_type, "paste");
}

#[test]
fn snake_case_and_indicator_ids() {
    assert_eq!(convert_to_snake_case("MultiLengthRsi"), "multi_length_rsi");
    assert_eq!(convert_to_snake_case("Alma"), "alma");
    assert_eq!(convert_to_snake_case("OIIndicatorSuite"), "o_i_indicator_suite");
    assert_eq!(convert_to_snake_case(""), "");
    assert_eq!(convert_to_snake_case("already_snake"), "already_snake");
    let ids = generate_indicator_function_ids("ta");
    assert_eq!(ids.len(), 48);
    assert_eq!(ids[0], "ta::indicators::alma::new");
    assert_eq!(ids[1], "ta::indicators::alma::new");
    assert_eq!(ids[2], "ta::indicators::approximate_quartiles::new");
    assert_eq!(ids[3], "ta::indicators::approximatequartiles::new");
    assert_eq!(ids[47], "ta::indicators::cci::new");
}

#[test]
fn synthetic_calls_split_their_callee() {
    let call = GraphCall {
        caller_id: "c::f".to_string(),
        callee_name: "new".to_string(),
        qualified_callee: Some("c::indicators::alma::new".to_string()),
        from_crate: "c".to_string(),
        to_crate: None,
        line: 1,
        call_type: "Direct".to_string(),
        cross_crate: false,
        is_synthetic: true,
    };
    let p = synthetic_call_plan(&call);
    assert_eq!(p.lookup, Some(("c::indicators::alma".to_string(), "new".to_string())));
    assert_eq!(p.qualified, "c::indicators::alma::new");
    assert_eq!(p.callee_name, "new");
    let mut bare = call.clone();
    bare.qualified_callee = Some("helper".to_string());
    let p = synthetic_call_plan(&bare);
    assert_eq!(p.lookup, None);
    assert_eq!(p.callee_name, "helper");
    let mut unknown = call.clone();
    unknown.qualified_callee = None;
    let p = synthetic_call_plan(&unknown);
    assert_eq!(p.lookup, None);
    assert_eq!(p.qualified, "");
    let mut trailing = call.clone();
    trailing.qualified_callee = Some("c::m::".to_string());
    assert_eq!(synthetic_call_plan(&trailing).lookup, None);
}

#[test]
fn bulk_insert_statement_keeps_safe_keys() {
    let keys = vec!["id".to_string(), "bad key".to_string(), "line_start".to_string(), "x;y".to_string()];
    assert_eq!(
        unwind_insert_query("Function", &keys),
        "UNWIND $nodes AS node\n                 CREATE (n:Function)\nSET n.id = node.id, n.line_start = node.line_start"
    );
    assert_eq!(
        unwind_insert_query("Type", &vec!["a-b".to_string()]),
        "UNWIND $nodes AS node\n                 CREATE (n:Type)"
    );
    assert!(clear_in_batches(100_000));
    assert!(!clear_in_batches(99_999));
}

#[test]
fn statistics_record_counts_by_name() {
    let mut s = GraphStatistics::new();
    s.record("functions", 12);
    s.record("calls", 30);
    s.record("unknown", 99);
    assert_eq!(s.function_nodes, 12);
    assert_eq!(s.call_edges, 30);
    assert_eq!(s.crate_nodes, 0);
    assert_eq!(s.depends_on_edges, 0);
}

#[test]
fn driver_errors_are_categorized_by_their_text() {
    let e = neo4rs::Error::UnexpectedMessage("deadlock detected".to_string());
    match categorize_error(&e) {
        MemgraphError::Deadlock(m) => assert_eq!(m, "deadlock detected"),
        other => panic!("unexpected category: {}", other.describe()),
    }
    match categorize_error(&neo4rs::Error::ConnectionError) {
        MemgraphError::Connection(m) => assert_eq!(m, "connection error"),
        other => panic!("unexpected category: {}", other.describe()),
    }
}
