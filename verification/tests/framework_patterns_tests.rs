use workspace_analyzer::framework_patterns::validate_pattern_complexity;
use workspace_analyzer::framework_patterns::ActorPattern;
use workspace_analyzer::framework_patterns::EntryPointPattern;
use workspace_analyzer::framework_patterns::EntryPointType;
use workspace_analyzer::framework_patterns::FrameworkPatterns;
use workspace_analyzer::framework_patterns::RuntimeCallPattern;
use workspace_analyzer::framework_patterns::RuntimeCallType;

fn entry(name: &str, pattern: &str) -> EntryPointPattern {
    EntryPointPattern {
        name: name.to_string(),
        description: "Test".to_string(),
        framework: "test".to_string(),
        pattern_type: EntryPointType::Main,
        function_pattern: pattern.to_string(),
        triggers_methods: vec![],
        context_conditions: vec![],
    }
}

#[test]
fn test_framework_patterns_creation() {
    let patterns = FrameworkPatterns::with_default_patterns();
    assert!(patterns.entry_points.len() > 0);
    assert!(patterns.runtime_calls.len() > 0);
    assert!(patterns.trait_dispatch.len() > 0);
    assert!(patterns.actor_patterns.len() > 0);
    assert!(patterns.compiled_patterns.is_some());
}

#[test]
fn test_pattern_validation() {
    let patterns = FrameworkPatterns::with_default_patterns();
    assert!(patterns.validate_patterns().is_ok());
}

#[test]
fn test_tokio_spawn_detection() {
    let patterns = FrameworkPatterns::with_default_patterns();
    let code = r#"
            tokio::spawn(async move {
                some_function().await;
            });
        "#;

    let matches = patterns.find_runtime_calls(code);
    assert!(matches.len() > 0);
    assert!(matches.iter().any(|p| p.name == "tokio_spawn"));
}

#[test]
fn test_websocket_actor_detection() {
    let patterns = FrameworkPatterns::with_default_patterns();
    let code = r#"
            impl WebSocketActor for MyActor {
                fn event_stream(&mut self) -> BoxStream<'_, Message> {
                    // implementation
                }
            }
        "#;

    let matches = patterns.find_trait_dispatches(code);
    assert!(matches.len() > 0);
    assert!(matches.iter().any(|p| p.name == "websocket_actor"));
}

#[test]
fn test_dangerous_pattern_validation() {
    let mut patterns = FrameworkPatterns::new();
    patterns.entry_points.push(EntryPointPattern {
        name: "dangerous".to_string(),
        description: "Test".to_string(),
        framework: "test".to_string(),
        pattern_type: EntryPointType::Main,
        function_pattern: r"(.*)(.*)".to_string(),
        triggers_methods: vec![],
        context_conditions: vec![],
    });

    assert!(patterns.validate_patterns().is_err());
}

#[test]
fn dangerous_forms_are_named() {
    let e = validate_pattern_complexity(".*.*", "entry point").unwrap_err();
    assert_eq!(
        e.message,
        r"Pattern '.*.*' for entry point contains potentially dangerous regex '\.\*\.\*' that could cause ReDoS"
    );
    assert!(validate_pattern_complexity("(.+)+", "x").is_err());
    assert!(validate_pattern_complexity("a[.*]b", "x").is_err());
    assert!(validate_pattern_complexity(r"\.start\(\)", "x").is_ok());
    let long = "a".repeat(1001);
    let e = validate_pattern_complexity(&long, "trait dispatch").unwrap_err();
    assert!(e.message.ends_with(" is too long (1001 chars), maximum is 1000"));
    assert!(validate_pattern_complexity(&"a".repeat(1000), "x").is_ok());
}

#[test]
fn compile_fails_on_invalid_regex_and_keeps_state() {
    let mut patterns = FrameworkPatterns::new();
    patterns.entry_points.push(entry("broken", "foo(bar"));
    let e = patterns.compile_patterns().unwrap_err();
    assert!(e.message.starts_with("Invalid entry point regex 'foo(bar': "));
    assert!(patterns.compiled_patterns.is_none());
    assert!(patterns.find_entry_points("foo(bar").is_empty());
}

#[test]
fn entry_points_and_actors_match_code() {
    let patterns = FrameworkPatterns::with_default_patterns();
    let found = patterns.find_entry_points("#[tokio::main]\nasync fn main() {}");
    assert_eq!(found.len(), 1);
    assert_eq!(found[0].name, "tokio_main");
    let actors = patterns.find_actor_patterns("let addr = MyActor.start();");
    assert_eq!(actors.len(), 1);
    assert_eq!(actors[0].name, "actix_actor");
    assert!(patterns.find_runtime_calls("fn plain() {}").is_empty());
}

#[test]
fn stats_and_default_lists() {
    let patterns = FrameworkPatterns::default();
    let stats = patterns.stats();
    assert_eq!(stats.entry_points, 2);
    assert_eq!(stats.runtime_calls, 3);
    assert_eq!(stats.trait_dispatches, 3);
    assert_eq!(stats.actor_patterns, 2);
    assert!(stats.compiled);
    let empty = FrameworkPatterns::new();
    assert!(!empty.stats().compiled);
}

#[test]
fn later_patterns_of_the_same_name_replace_earlier_ones() {
    let mut patterns = FrameworkPatterns::new();
    patterns.runtime_calls.push(RuntimeCallPattern {
        name: "r".to_string(),
        description: String::new(),
        framework: String::new(),
        pattern_type: RuntimeCallType::EventHandler,
        caller_pattern: "first".to_string(),
        target_pattern: "x".to_string(),
        method_patterns: vec![],
        conditions: vec![],
    });
    patterns.actor_patterns.push(ActorPattern {
        name: "a".to_string(),
        description: String::new(),
        framework: String::new(),
        actor_trait: String::new(),
        lifecycle_methods: vec![],
        message_handlers: vec![],
        spawn_patterns: vec!["one".to_string(), "two".to_string()],
    });
    assert!(patterns.compile_patterns().is_ok());
    assert_eq!(patterns.find_runtime_calls("the first call").len(), 1);
    assert!(patterns.find_actor_patterns("one only").is_empty());
    assert_eq!(patterns.find_actor_patterns("two here").len(), 1);
}
