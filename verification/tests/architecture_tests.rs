use workspace_analyzer::architecture::circular_dependency_violation;
use workspace_analyzer::architecture::generate_summary;
use workspace_analyzer::architecture::layer_health_status;
use workspace_analyzer::architecture::marks_call_edge;
use workspace_analyzer::architecture::private_api_violation;
use workspace_analyzer::architecture::process_layer_violation_row;
use workspace_analyzer::architecture::reverse_dependency_violation;
use workspace_analyzer::architecture::severity_from_name;
use workspace_analyzer::architecture::severity_name;
use workspace_analyzer::architecture::violation_from_marked_row;
use workspace_analyzer::architecture::ArchitectureViolation;
use workspace_analyzer::architecture::LayerCallRow;
use workspace_analyzer::architecture::MarkedCallRow;
use workspace_analyzer::architecture::ViolationSeverity;
use workspace_analyzer::config::Config;
use workspace_analyzer::config::Layer;

fn create_test_config() -> Config {
    let mut config = Config::default();
    config.architecture.layers = vec![
        Layer { name: "core".to_string(), crates: vec!["core-lib".to_string()] },
        Layer { name: "domain".to_string(), crates: vec!["domain-lib".to_string()] },
        Layer { name: "app".to_string(), crates: vec!["app-lib".to_string()] },
    ];
    config
}

fn violation(from_crate: &str, from_layer: &str, to_layer: &str, severity: ViolationSeverity) -> ArchitectureViolation {
    ArchitectureViolation {
        kind: "layer_violation".to_string(),
        from: "f".to_string(),
        to: "g".to_string(),
        from_layer: from_layer.to_string(),
        to_layer: to_layer.to_string(),
        from_crate: from_crate.to_string(),
        to_crate: "other".to_string(),
        file: "x.rs".to_string(),
        line: 1,
        severity,
        message: String::new(),
    }
}

#[test]
fn architecture_test_layer_violation_detection() {
    let config = create_test_config();

    assert!(config.is_layer_violation("core-lib", "domain-lib"));
    assert!(config.is_layer_violation("core-lib", "app-lib"));
    assert!(config.is_layer_violation("domain-lib", "app-lib"));

    assert!(!config.is_layer_violation("app-lib", "domain-lib"));
    assert!(!config.is_layer_violation("domain-lib", "core-lib"));
    assert!(!config.is_layer_violation("app-lib", "core-lib"));
}

#[test]
fn test_violation_severity() {
    let violation = ArchitectureViolation {
        kind: "layer_violation".to_string(),
        from: "test_fn".to_string(),
        to: "other_fn".to_string(),
        from_layer: "core".to_string(),
        to_layer: "app".to_string(),
        from_crate: "core-lib".to_string(),
        to_crate: "app-lib".to_string(),
        file: "test.rs".to_string(),
        line: 10,
        severity: ViolationSeverity::Error,
        message: "Test violation".to_string(),
    };

    assert!(matches!(violation.severity, ViolationSeverity::Error));
}

#[test]
fn unknown_crates_are_no_violation() {
    let config = create_test_config();
    assert!(!config.is_layer_violation("core-lib", "unknown"));
    assert!(!config.is_layer_violation("unknown", "app-lib"));
    assert_eq!(config.get_layer_index("domain-lib"), Some(1));
    assert_eq!(config.get_layer_name(2), Some("app"));
    assert_eq!(config.get_layer_name(3), None);
}

#[test]
fn layer_rows_look_up_layer_names() {
    let mut config = create_test_config();
    config.architecture.layers.push(Layer { name: "top".to_string(), crates: vec!["core".to_string(), "app".to_string()] });
    let row = |from_layer: &str, to_layer: &str| LayerCallRow {
        from_layer: from_layer.to_string(),
        to_layer: to_layer.to_string(),
        from_crate: "core-lib".to_string(),
        to_crate: "app-lib".to_string(),
        caller_name: "core_lib::run".to_string(),
        callee_name: "app_lib::serve".to_string(),
        file: "src/lib.rs".to_string(),
        line: 42,
    };
    assert!(process_layer_violation_row(&config, &row("core", "app")).is_none());
    let v = process_layer_violation_row(&create_test_config(), &row("core-lib", "app-lib")).unwrap();
    assert_eq!(v.kind, "layer_violation");
    assert_eq!(v.line, 42);
    assert_eq!(
        v.message,
        "Layer violation: core-lib layer 'core-lib' should not call app-lib layer 'app-lib'. Function 'core_lib::run' calls 'app_lib::serve'"
    );
    assert!(process_layer_violation_row(&create_test_config(), &row("app-lib", "core-lib")).is_none());
}

#[test]
fn violation_builders() {
    let c = circular_dependency_violation("a", "b");
    assert_eq!(c.message, "Circular dependency detected between crates 'a' and 'b'");
    assert_eq!(c.from_layer, "unknown");
    let config = create_test_config();
    let r = reverse_dependency_violation(&config, "core", "app", "core-lib", "app-lib").unwrap();
    assert_eq!(r.file, "Cargo.toml");
    assert_eq!(
        r.message,
        "Reverse dependency: Lower layer 'core' (core-lib) should not depend on higher layer 'app' (app-lib)"
    );
    assert!(reverse_dependency_violation(&config, "app", "core", "app-lib", "core-lib").is_none());
    let p = private_api_violation("a::f", "a", "b::g", "b", "b.rs", 7);
    assert!(matches!(p.severity, ViolationSeverity::Warning));
    assert_eq!(p.message, "Private API access: 'a::f' in crate 'a' calls private function 'b::g' in crate 'b'");
    assert_eq!(p.line, 7);
}

#[test]
fn severities_round_trip_through_names() {
    for s in [ViolationSeverity::Error, ViolationSeverity::Warning, ViolationSeverity::Info] {
        assert_eq!(severity_from_name(&severity_name(s)), s);
    }
    assert_eq!(severity_from_name("bogus"), ViolationSeverity::Info);
    let row = MarkedCallRow {
        caller: "a".to_string(),
        callee: "b".to_string(),
        caller_crate: "x".to_string(),
        callee_crate: "y".to_string(),
        file: "f.rs".to_string(),
        line: 3,
        kind: "layer_violation".to_string(),
        severity: "Warning".to_string(),
    };
    let v = violation_from_marked_row(&row);
    assert_eq!(v.severity, ViolationSeverity::Warning);
    assert_eq!(v.message, "Function 'a' violates architecture by calling 'b'");
    assert!(marks_call_edge(&v));
}

#[test]
fn summary_counts_and_top_crates() {
    let mut vs = Vec::new();
    for (c, n) in [("a", 1), ("b", 3), ("c", 2), ("d", 5), ("e", 4), ("f", 6)] {
        for _ in 0..n {
            vs.push(violation(c, "core", "app", ViolationSeverity::Error));
        }
    }
    vs.push(violation("a", "domain", "app", ViolationSeverity::Warning));
    vs.push(violation("b", "domain", "app", ViolationSeverity::Info));
    let s = generate_summary(&vs);
    assert_eq!(s.total_violations, 23);
    assert_eq!(s.error_count, 21);
    assert_eq!(s.warning_count, 1);
    assert_eq!(s.info_count, 1);
    assert_eq!(s.violations_by_layer.get("core -> app"), Some(&21));
    assert_eq!(s.violations_by_layer.get("domain -> app"), Some(&2));
    assert_eq!(s.most_problematic_crates, vec!["f", "d", "b", "e", "a"]);
}

#[test]
fn summary_of_nothing() {
    let s = generate_summary(&[]);
    assert_eq!(s.total_violations, 0);
    assert!(s.most_problematic_crates.is_empty());
    assert_eq!(s.violations_by_layer.len(), 0);
}

#[test]
fn layer_health_thresholds() {
    assert_eq!(layer_health_status(0), "healthy");
    assert_eq!(layer_health_status(1), "healthy");
    assert_eq!(layer_health_status(2), "warning");
    assert_eq!(layer_health_status(4), "warning");
    assert_eq!(layer_health_status(5), "critical");
}
