use workspace_analyzer::global_index::GlobalSymbolIndex;
use workspace_analyzer::workspace::CallType;
use workspace_analyzer::global_index::TypeKind;
use workspace_analyzer::global_index::Visibility;
use workspace_analyzer::indexing::apply_cross_crate_resolution;
use workspace_analyzer::indexing::apply_framework_knowledge;
use workspace_analyzer::indexing::build_crate_exports;
use workspace_analyzer::indexing::contains_actor_spawn_pattern;
use workspace_analyzer::indexing::convert_to_crate_function_info;
use workspace_analyzer::indexing::convert_type_kind;
use workspace_analyzer::indexing::is_websocket_actor_implementation;
use workspace_analyzer::indexing::ParsedCall;
use workspace_analyzer::indexing::ParsedFunction;
use workspace_analyzer::indexing::ParsedImpl;
use workspace_analyzer::indexing::ParsedSymbolSet;
use workspace_analyzer::indexing::ParsedType;
use workspace_analyzer::indexing::ParsedTypeKind;

fn pf(name: &str, qualified: &str, visibility: &str, has_self: bool) -> ParsedFunction {
    ParsedFunction {
        id: format!("id:{}", qualified),
        name: name.to_string(),
        qualified_name: qualified.to_string(),
        crate_name: "engine".to_string(),
        module: "engine::book".to_string(),
        file_path: "src/book.rs".to_string(),
        line_start: 12,
        visibility: visibility.to_string(),
        signature: format!("fn {}()", name),
        is_async: false,
        is_unsafe: false,
        has_self_param: has_self,
    }
}

#[test]
fn function_records_for_the_index() {
    let info = convert_to_crate_function_info(&pf("insert", "engine::Book::insert", "pub", true), "engine");
    assert_eq!(info.name, "insert");
    assert_eq!(info.crate_name, "engine");
    assert_eq!(info.visibility, Visibility::Public);
    assert_eq!(info.associated_type, Some("Book".to_string()));
    assert_eq!(info.line_number, Some(12));
    let free = convert_to_crate_function_info(&pf("run", "engine::run", "pub(crate)", false), "engine");
    assert_eq!(free.associated_type, None);
    assert_eq!(free.visibility, Visibility::Crate);
    assert_eq!(convert_type_kind(&ParsedTypeKind::Trait), TypeKind::Struct);
    assert_eq!(convert_type_kind(&ParsedTypeKind::TypeAlias), TypeKind::Alias);
}

#[test]
fn exports_list_public_items() {
    let parsed = ParsedSymbolSet {
        functions: vec![pf("open", "engine::open", "pub", false), pf("hidden", "engine::hidden", "private", false)],
        types: vec![ParsedType {
            name: "Book".to_string(),
            module: "engine::book".to_string(),
            kind: ParsedTypeKind::Struct,
            visibility: "pub".to_string(),
            file_path: "src/book.rs".to_string(),
            line_start: 3,
        }],
        impls: vec![],
        calls: vec![],
    };
    let exports = build_crate_exports("engine", &parsed);
    assert_eq!(exports.crate_name, "engine");
    assert_eq!(exports.public_functions, vec!["open".to_string()]);
    assert_eq!(exports.public_types, vec!["Book".to_string()]);

    let mut index = GlobalSymbolIndex::new("/ws".to_string());
    index.index_crate_symbols("engine", &parsed);
    assert!(index.find_function("open").is_some());
    assert!(index.find_type_in_crate("Book", "engine").is_some());
}

#[test]
fn framework_dispatchers_add_synthetic_calls() {
    assert!(is_websocket_actor_implementation("impl WebSocketActor for Feed {}", "x::Feed::handle_message"));
    assert!(is_websocket_actor_implementation("", "x::WebSocketActor::run"));
    assert!(!is_websocket_actor_implementation("impl Actor for Feed", "x::Feed::run"));
    assert!(contains_actor_spawn_pattern("let addr = Feed.start();"));
    assert!(!contains_actor_spawn_pattern("fn main() {}"));

    let mut parsed = ParsedSymbolSet {
        functions: vec![
            pf("handle_message", "engine::Feed::handle_message", "pub", true),
            pf("started", "engine::Feed::started", "pub", true),
            pf("other", "engine::other", "pub", false),
        ],
        types: vec![],
        impls: vec![],
        calls: vec![],
    };
    let contents = vec![
        Some("impl WebSocketActor for Feed {}".to_string()),
        Some("Feed.start();".to_string()),
        None,
    ];
    let mut untouched = parsed.clone();
    assert_eq!(apply_framework_knowledge(false, &mut untouched, &contents), 0);
    assert!(untouched.calls.is_empty());
    let added = apply_framework_knowledge(true, &mut parsed, &contents);
    assert_eq!(added, 2);
    assert_eq!(parsed.calls[0].caller_id, "websocket_framework_dispatch");
    assert_eq!(parsed.calls[0].callee_name, "handle_message");
    assert_eq!(parsed.calls[1].caller_id, "actix_framework_lifecycle");
    assert_eq!(parsed.calls[1].to_crate, Some("engine".to_string()));
    assert_eq!(parsed.functions.len(), 5);
    assert_eq!(parsed.functions[3].name, "websocket_dispatch");
    assert_eq!(parsed.functions[4].qualified_name, "actix_framework::lifecycle_dispatch");
}

fn pt(name: &str, kind: ParsedTypeKind) -> ParsedType {
    ParsedType {
        name: name.to_string(),
        module: "engine::book".to_string(),
        kind,
        visibility: "pub".to_string(),
        file_path: "src/book.rs".to_string(),
        line_start: 3,
    }
}

#[test]
fn indexing_a_crate_records_each_symbol_under_its_name() {
    let parsed = ParsedSymbolSet {
        functions: vec![
            pf("insert", "Book::insert", "pub", true),
            pf("new", "Book::new", "pub", false),
            pf("insert", "Ledger::insert", "private", true),
        ],
        types: vec![pt("Book", ParsedTypeKind::Struct), pt("Matcher", ParsedTypeKind::Trait)],
        impls: vec![ParsedImpl {
            type_ident: "Book".to_string(),
            trait_name: Some("Matcher".to_string()),
            methods: vec![pf("matches", "engine::Book::matches", "pub", true)],
        }],
        calls: vec![],
    };
    let mut index = GlobalSymbolIndex::new("/ws".to_string());
    index.add_function(convert_to_crate_function_info(&pf("insert", "core::insert", "pub", false), "core"));
    index.index_crate_symbols("engine", &parsed);
    let inserts = index.find_function("insert").unwrap();
    assert_eq!(inserts.len(), 3);
    assert_eq!(inserts[0].crate_name, "core");
    assert_eq!(inserts[1].crate_name, "engine");
    assert_eq!(inserts[1].associated_type, Some("Book".to_string()));
    assert_eq!(inserts[2].associated_type, Some("Ledger".to_string()));
    assert_eq!(inserts[2].visibility, Visibility::Private);
    let book = index.find_type_in_crate("Book", "engine").unwrap();
    assert_eq!(book.methods, vec!["insert".to_string()]);
    assert_eq!(book.associated_functions, vec!["new".to_string()]);
    assert_eq!(book.trait_impls, vec!["Matcher".to_string()]);
    assert!(index.find_trait("Book").is_none());
    let matcher = index.find_trait_in_crate("Matcher", "engine").unwrap();
    assert_eq!(matcher.methods.len(), 1);
    assert_eq!(matcher.methods[0].name, "matches");
    assert_eq!(index.find_type("Matcher").unwrap().len(), 1);
    let exports = index.get_crate_exports("engine").unwrap();
    assert_eq!(exports.public_functions, vec!["insert".to_string(), "new".to_string()]);
    assert_eq!(exports.public_traits, vec!["Matcher".to_string()]);
}

fn call(qualified: Option<&str>, to_crate: Option<&str>) -> ParsedCall {
    ParsedCall {
        caller_id: "engine::run".to_string(),
        caller_module: "engine".to_string(),
        callee_name: "insert".to_string(),
        qualified_callee: qualified.map(|q| q.to_string()),
        call_type: CallType::Qualified,
        line: 7,
        cross_crate: false,
        from_crate: "app".to_string(),
        to_crate: to_crate.map(|c| c.to_string()),
        file_path: "src/main.rs".to_string(),
        is_synthetic: false,
    }
}

#[test]
fn cross_crate_resolution_counts_the_calls_it_resolves() {
    let parsed = ParsedSymbolSet {
        functions: vec![pf("open", "Book::open", "pub", false)],
        types: vec![pt("Book", ParsedTypeKind::Struct)],
        impls: vec![],
        calls: vec![],
    };
    let mut index = GlobalSymbolIndex::new("/ws".to_string());
    index.index_crate_symbols("engine", &parsed);
    index.add_function(convert_to_crate_function_info(&pf("open", "engine::Book::open", "pub", true), "engine"));
    let mut calls = vec![
        call(Some("Book::open"), None),
        call(Some("Book::open"), Some("engine")),
        call(Some("Missing::open"), None),
        call(None, None),
        call(Some("engine::Book::open"), None),
    ];
    let resolved = apply_cross_crate_resolution(&index, &mut calls);
    assert_eq!(resolved, 2);
    assert_eq!(calls[0].to_crate, Some("engine".to_string()));
    assert!(calls[0].cross_crate);
    assert!(!calls[1].cross_crate);
    assert_eq!(calls[2].to_crate, None);
    assert_eq!(calls[4].to_crate, Some("engine".to_string()));
}
