use workspace_analyzer::workspace::build_function_registry;
use workspace_analyzer::workspace::extract_crate_name_from_qualified;
use workspace_analyzer::workspace::is_cross_crate_call;
use workspace_analyzer::workspace::is_external_crate;
use workspace_analyzer::workspace::is_standard_library_crate;
use workspace_analyzer::workspace::resolve_function_reference;
use workspace_analyzer::workspace::resolve_references;
use workspace_analyzer::workspace::validate_call_syntax;
use workspace_analyzer::workspace::validate_crate_name;
use workspace_analyzer::workspace::CallType;
use workspace_analyzer::workspace::DetectionError;
use workspace_analyzer::workspace::FunctionReference;
use workspace_analyzer::workspace::FunctionRegistry;
use workspace_analyzer::workspace::ResolutionStats;
use workspace_analyzer::workspace::RustFunction;

fn rust_function(name: &str, qualified: &str, visibility: &str) -> RustFunction {
    RustFunction {
        name: name.to_string(),
        qualified_name: qualified.to_string(),
        file_path: "/ws/src/lib.rs".to_string(),
        line_start: 1,
        line_end: 3,
        module: String::new(),
        visibility: visibility.to_string(),
        parameters: vec![],
        return_type: None,
    }
}

fn reference(target: &str, caller: &str, cross_crate: bool) -> FunctionReference {
    FunctionReference {
        target_function: target.to_string(),
        calling_function: caller.to_string(),
        call_type: CallType::Direct,
        cross_crate,
        from_test: false,
        file_path: "/ws/src/lib.rs".to_string(),
        line: 10,
    }
}

#[test]
fn test_cross_crate_detection_qualified_calls() {
    assert!(is_cross_crate_call("trading_exchanges::binance::test_function", "trading-core"));
    assert!(is_cross_crate_call("trading-exchanges::binance::test_function", "trading-core"));

    assert!(!is_cross_crate_call("trading_core::some_function", "trading-core"));
    assert!(!is_cross_crate_call("trading-core::some_function", "trading-core"));

    assert!(!is_cross_crate_call("some_function", "trading-core"));
    assert!(!is_cross_crate_call("println!", "trading-core"));
}

#[test]
fn test_cross_crate_detection_underscore_hyphen_normalization() {
    assert!(!is_cross_crate_call("trading_core::function", "trading-core"));
    assert!(!is_cross_crate_call("trading-core::function", "trading_core"));
    assert!(is_cross_crate_call("trading_exchanges::function", "trading-core"));
    assert!(is_cross_crate_call("trading-exchanges::function", "trading_core"));
}

#[test]
fn test_crate_name_extraction_from_file_path() {
    let test_cases = vec![
        ("/path/to/trading-backend-poc/trading-core/src/lib.rs", "trading-core"),
        ("/path/to/trading-backend-poc/trading-exchanges/src/binance.rs", "trading-exchanges"),
        ("/path/to/trading-backend-poc/trading-strategy/src/momentum.rs", "trading-strategy"),
    ];

    for (_file_path, expected_crate) in test_cases {
        assert_eq!(
            extract_crate_name_from_qualified(&format!("{}::something", expected_crate)),
            expected_crate
        );
    }
}

#[test]
fn test_function_reference_creation_with_cross_crate_status() {
    let test_cases = vec![
        ("trading_exchanges::binance::test_function", "trading-core", true),
        ("trading_core::some_function", "trading-core", false),
        ("simple_function", "trading-core", false),
    ];

    for (call_text, current_crate, expected_cross_crate) in test_cases {
        let result = is_cross_crate_call(call_text, current_crate);
        assert_eq!(
            result, expected_cross_crate,
            "Call '{}' in crate '{}' should have cross_crate={}",
            call_text, current_crate, expected_cross_crate
        );
    }
}

#[test]
fn test_preserve_cross_crate_status_during_resolution() {
    let registry = FunctionRegistry::new();

    let func_ref = FunctionReference {
        target_function: "trading_exchanges::binance::test_function".to_string(),
        calling_function: "trading_core::some_function".to_string(),
        call_type: CallType::Qualified,
        cross_crate: true,
        from_test: false,
        file_path: "/test/file.rs".to_string(),
        line: 10,
    };

    if let Some(resolved) = resolve_function_reference(&func_ref, &registry) {
        assert!(resolved.cross_crate, "Cross-crate status should be preserved even on failed resolution");
    }
}

#[test]
fn workspace_test_layer_violation_detection() {
    let call_text = "trading_exchanges::binance::test_function";
    let current_crate = "trading-core";

    assert!(is_cross_crate_call(call_text, current_crate));

    let extracted_crate = extract_crate_name_from_qualified(call_text);
    assert_eq!(extracted_crate, "trading_exchanges");
}

#[test]
fn test_external_crate_edge_cases() {
    assert!(is_cross_crate_call("std::collections::HashMap::new", "trading-core"));
    assert!(is_cross_crate_call("core::mem::drop", "trading-core"));
    assert!(is_cross_crate_call("alloc::vec::Vec::new", "trading-core"));

    assert!(is_cross_crate_call("serde::Serialize", "trading-core"));
    assert!(is_cross_crate_call("tokio::spawn", "trading-core"));
    assert!(is_cross_crate_call("chrono::Utc::now", "trading-core"));
    assert!(is_cross_crate_call("reqwest::get", "trading-core"));
    assert!(is_cross_crate_call("anyhow::Result", "trading-core"));

    assert!(!is_cross_crate_call("println!", "trading-core"));
    assert!(!is_cross_crate_call("some_function", "trading-core"));

    assert!(!is_cross_crate_call("trading_core::function", "trading-core"));
    assert!(is_cross_crate_call("trading_exchanges::function", "trading-core"));
}

#[test]
fn test_macro_call_detection() {
    assert!(is_cross_crate_call("std::println", "trading-core"));
    assert!(is_cross_crate_call("std::vec", "trading-core"));

    assert!(is_cross_crate_call("serde::json", "trading-core"));
    assert!(is_cross_crate_call("tokio::select", "trading-core"));

    assert!(is_cross_crate_call("trading_exchanges::declare_exchange", "trading-core"));
    assert!(!is_cross_crate_call("trading_core::internal_macro", "trading-core"));

    assert!(!is_cross_crate_call("println", "trading-core"));
    assert!(!is_cross_crate_call("vec", "trading-core"));
}

#[test]
fn test_trait_method_resolution() {
    assert!(is_cross_crate_call("serde::Serialize", "trading-core"));
    assert!(is_cross_crate_call("std::fmt::Display", "trading-core"));
    assert!(is_cross_crate_call("tokio::AsyncRead", "trading-core"));

    assert!(is_cross_crate_call("trading_exchanges::ExchangeTrait", "trading-core"));
    assert!(!is_cross_crate_call("trading_core::CoreTrait", "trading-core"));

    assert!(is_cross_crate_call("reqwest::Client", "trading-core"));
    assert!(is_cross_crate_call("chrono::Utc", "trading-core"));

    assert!(!is_cross_crate_call("my_method", "trading-core"));
    assert!(!is_cross_crate_call("calculate", "trading-core"));
}

#[test]
fn test_error_handling() {
    assert!(validate_crate_name("").is_err());
    assert!(validate_crate_name("crate..name").is_err());
    assert!(validate_crate_name("crate//name").is_err());
    assert!(validate_crate_name("trading-core").is_ok());

    assert!(validate_call_syntax("").is_err());
    assert!(validate_call_syntax(":::invalid").is_err());
    assert!(validate_call_syntax("::starts_with_colon").is_err());
    assert!(validate_call_syntax("ends_with_colon::").is_err());
    assert!(validate_call_syntax("valid::function::call").is_ok());
    assert!(validate_call_syntax("simple_call").is_ok());
}

#[test]
fn detection_error_messages() {
    match validate_crate_name("") {
        Err(DetectionError::InvalidCrateName(m)) => assert_eq!(m, "Empty crate name"),
        _ => panic!("expected an invalid crate name"),
    }
    match validate_crate_name("a..b") {
        Err(DetectionError::InvalidCrateName(m)) => {
            assert_eq!(m, "Invalid path pattern in crate name: a..b")
        }
        _ => panic!("expected an invalid crate name"),
    }
    match validate_call_syntax("") {
        Err(DetectionError::MalformedCallSyntax(m)) => assert_eq!(m, "Empty function call"),
        _ => panic!("expected a malformed call"),
    }
    match validate_call_syntax("a::") {
        Err(DetectionError::MalformedCallSyntax(m)) => assert_eq!(m, "Malformed call syntax: a::"),
        _ => panic!("expected a malformed call"),
    }
}

#[test]
fn known_crate_lists() {
    assert!(is_standard_library_crate("proc_macro2"));
    assert!(!is_standard_library_crate("serde"));
    assert!(is_external_crate("criterion"));
    assert!(!is_external_crate("trading_core"));
}

#[test]
fn registry_resolves_qualified_module_and_unique_names() {
    let functions = vec![
        rust_function("helper", "app::util::helper", "pub"),
        rust_function("run", "app::run", "private"),
        rust_function("run", "lib::run", "pub"),
        rust_function("solo", "lib::solo", "pub(crate)"),
    ];
    let registry = build_function_registry(&functions);
    assert_eq!(registry.resolve_function_call("app::util::helper", "", &[]), Some("app::util::helper".to_string()));
    assert_eq!(registry.resolve_function_call("run", "app", &[]), Some("app::run".to_string()));
    assert_eq!(registry.resolve_function_call("run", "other", &[]), None);
    assert_eq!(registry.resolve_function_call("solo", "elsewhere", &[]), Some("lib::solo".to_string()));
    assert_eq!(
        registry.resolve_function_call("helper", "x", &["app::util::helper".to_string()]),
        Some("app::util::helper".to_string())
    );
    assert!(registry.public_functions.contains_key("lib::run"));
    assert!(!registry.public_functions.contains_key("app::run"));
}

#[test]
fn resolution_marks_calls_into_other_crates() {
    let functions = vec![rust_function("connect", "net::connect", "pub")];
    let registry = build_function_registry(&functions);
    let mut refs = vec![
        reference("connect", "app::main", false),
        reference("missing", "app::main", true),
        reference("net::connect", "net::start", false),
    ];
    let stats: ResolutionStats = resolve_references(&mut refs, &registry);
    assert_eq!(refs[0].target_function, "net::connect");
    assert!(refs[0].cross_crate);
    assert_eq!(refs[1].target_function, "missing");
    assert!(refs[1].cross_crate);
    assert!(!refs[2].cross_crate);
    assert_eq!(stats.total_references, 3);
    assert_eq!(stats.successful_resolutions, 3);
    assert_eq!(stats.failed_resolutions, 0);
    assert_eq!(stats.cross_crate_detected_syntax, 1);
    assert_eq!(stats.cross_crate_detected_resolution, 1);
}

#[test]
fn resolution_stats_start_at_zero() {
    let s = ResolutionStats::new();
    assert_eq!(s.total_references + s.successful_resolutions + s.failed_resolutions, 0);
}
