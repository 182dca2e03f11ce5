use workspace_analyzer::resolution::build_type_hierarchy;
use workspace_analyzer::resolution::convert_lsp_symbol_kind;
use workspace_analyzer::resolution::find_potential_matches;
use workspace_analyzer::resolution::generate_cache_key;
use workspace_analyzer::resolution::levenshtein_distance;
use workspace_analyzer::resolution::lsp_definition_request_line;
use workspace_analyzer::resolution::resolve_with_lsp;
use workspace_analyzer::resolution::LspDefinition;
use workspace_analyzer::resolution::LspDocumentSymbol;
use workspace_analyzer::resolution::SourcePosition;
use workspace_analyzer::resolution::SourceRange;
use workspace_analyzer::resolution::parse_visibility;
use workspace_analyzer::resolution::resolve_with_tree_sitter;
use workspace_analyzer::resolution::similarity_terms;
use workspace_analyzer::resolution::LspSymbolKind;
use workspace_analyzer::resolution::ResolutionContext;
use workspace_analyzer::resolution::ResolutionMethod;
use workspace_analyzer::resolution::ResolvedSymbolKind;
use workspace_analyzer::resolution::SymbolVisibility;
use workspace_analyzer::table::NameTable;
use workspace_analyzer::workspace::CallType;
use workspace_analyzer::workspace::FunctionReference;
use workspace_analyzer::workspace::RustFunction;
use workspace_analyzer::workspace::RustType;

fn calculate_similarity(a: &str, b: &str) -> f64 {
    let (d, m) = similarity_terms(a, b);
    1.0 - (d as f64 / m as f64)
}

fn rust_function(name: &str, qualified: &str, line: usize) -> RustFunction {
    RustFunction {
        name: name.to_string(),
        qualified_name: qualified.to_string(),
        file_path: format!("/src/{}.rs", name),
        line_start: line,
        line_end: line + 2,
        module: String::new(),
        visibility: "pub".to_string(),
        parameters: vec![],
        return_type: None,
    }
}

fn reference(target: &str, call_type: CallType) -> FunctionReference {
    FunctionReference {
        target_function: target.to_string(),
        calling_function: "app::main".to_string(),
        call_type,
        cross_crate: false,
        from_test: false,
        file_path: "/src/main.rs".to_string(),
        line: 7,
    }
}

#[test]
fn test_levenshtein_distance() {
    assert_eq!(levenshtein_distance("", ""), 0);
    assert_eq!(levenshtein_distance("abc", "abc"), 0);
    assert_eq!(levenshtein_distance("abc", "ab"), 1);
    assert_eq!(levenshtein_distance("abc", "def"), 3);
    assert_eq!(levenshtein_distance("kitten", "sitting"), 3);
}

#[test]
fn test_visibility_parsing() {
    assert_eq!(parse_visibility("pub"), SymbolVisibility::Public);
    assert_eq!(parse_visibility("pub(crate)"), SymbolVisibility::PublicCrate);
    assert_eq!(parse_visibility("pub(super)"), SymbolVisibility::PublicSuper);
    assert_eq!(parse_visibility("private"), SymbolVisibility::Private);

    if let SymbolVisibility::PublicIn(path) = parse_visibility("pub(in crate::module)") {
        assert_eq!(path, "in crate::module");
    } else {
        panic!("Expected PublicIn variant");
    }
}

#[test]
fn resolution_test_cache_key_generation() {
    let key = generate_cache_key("target::function", "caller::function");
    assert_eq!(key, "target::function|caller::function");
}

#[test]
fn test_symbol_kind_conversion() {
    assert_eq!(convert_lsp_symbol_kind(&LspSymbolKind::Function), ResolvedSymbolKind::Function);
    assert_eq!(convert_lsp_symbol_kind(&LspSymbolKind::Struct), ResolvedSymbolKind::Struct);
    assert_eq!(convert_lsp_symbol_kind(&LspSymbolKind::Module), ResolvedSymbolKind::Module);
}

#[test]
fn test_similarity_calculation() {
    assert_eq!(calculate_similarity("abc", "abc"), 1.0);
    assert_eq!(calculate_similarity("", ""), 1.0);

    let similarity = calculate_similarity("hello", "hallo");
    assert!(similarity > 0.5 && similarity < 1.0);
}

#[test]
fn levenshtein_counts_characters_not_bytes() {
    assert_eq!(levenshtein_distance("é", "e"), 1);
    assert_eq!(levenshtein_distance("flaw", "lawn"), 2);
    assert_eq!(levenshtein_distance("", "abc"), 3);
}

#[test]
fn similarity_terms_use_byte_lengths() {
    assert_eq!(similarity_terms("", ""), (0, 1));
    assert_eq!(similarity_terms("hello", "hallo"), (1, 5));
    assert_eq!(similarity_terms("é", "e"), (1, 2));
}

#[test]
fn visibility_edge_cases() {
    assert_eq!(parse_visibility(""), SymbolVisibility::Private);
    assert_eq!(parse_visibility("crate"), SymbolVisibility::Unknown);
    assert_eq!(parse_visibility("pub(self)"), SymbolVisibility::PublicIn("self".to_string()));
}

#[test]
fn potential_matches_sorted_by_similarity_stably() {
    let functions = vec![
        rust_function("run", "far::away::module::run", 1),
        rust_function("run", "engine::run", 2),
        rust_function("walk", "engine::walk", 3),
        rust_function("run", "engine::run", 4),
    ];
    let registry = NameTable::new();
    let context = ResolutionContext {
        function_registry: &registry,
        all_functions: &functions,
        all_types: &[],
        current_file: "/src/main.rs",
        imports: &[],
    };
    let matches = find_potential_matches("engine::run", &context);
    let lines: Vec<usize> = matches.iter().map(|f| f.line_start).collect();
    assert_eq!(lines, vec![2, 4, 1]);
}

#[test]
fn tree_sitter_resolution_prefers_registry_then_patterns() {
    let functions = vec![rust_function("spawn", "runtime::spawn", 12)];
    let mut registry = NameTable::new();
    registry.insert("runtime::spawn".to_string(), rust_function("spawn", "runtime::spawn", 12));
    let context = ResolutionContext {
        function_registry: &registry,
        all_functions: &functions,
        all_types: &[],
        current_file: "/src/main.rs",
        imports: &[],
    };
    let exact = resolve_with_tree_sitter(&reference("runtime::spawn", CallType::Method), &context);
    assert_eq!(exact.resolution_method, ResolutionMethod::TreeSitterSyntax);
    assert_eq!(exact.kind, ResolvedSymbolKind::Method);
    assert_eq!(exact.location.line, 12);
    assert_eq!(exact.visibility, SymbolVisibility::Public);

    let pattern = resolve_with_tree_sitter(&reference("other::spawn", CallType::Direct), &context);
    assert_eq!(pattern.resolution_method, ResolutionMethod::PatternMatching);
    assert_eq!(pattern.qualified_name, "runtime::spawn");
    assert_eq!(pattern.kind, ResolvedSymbolKind::Function);

    let failed = resolve_with_tree_sitter(&reference("nothing", CallType::Macro), &context);
    assert_eq!(failed.resolution_method, ResolutionMethod::Failed);
    assert_eq!(failed.kind, ResolvedSymbolKind::Unknown);
    assert_eq!(failed.location.file_path, "/src/main.rs");
    assert_eq!(failed.location.line, 7);
    assert_eq!(failed.qualified_name, "nothing");
}

#[test]
fn type_hierarchy_keyed_by_qualified_name() {
    let t = |q: &str| RustType {
        name: q.rsplit("::").next().unwrap().to_string(),
        qualified_name: q.to_string(),
        file_path: "/src/lib.rs".to_string(),
        line_start: 1,
        line_end: 2,
        module: String::new(),
        visibility: "pub".to_string(),
        type_kind: "struct".to_string(),
    };
    let h = build_type_hierarchy(&[t("a::Node"), t("b::Node"), t("a::Node")]);
    assert_eq!(h.len(), 2);
    assert_eq!(h.get("a::Node").unwrap().type_ident, "a::Node");
    assert!(h.get("b::Node").unwrap().methods.is_empty());
}

fn range(a: u32, b: u32, c: u32, d: u32) -> SourceRange {
    SourceRange {
        start: SourcePosition { line: a, character: b },
        end: SourcePosition { line: c, character: d },
    }
}

#[test]
fn language_server_answers_become_resolutions() {
    let r = reference("engine::Book::insert", CallType::Method);
    assert_eq!(lsp_definition_request_line(&r), 6);
    let mut first_line = reference("x", CallType::Direct);
    first_line.line = 0;
    assert_eq!(lsp_definition_request_line(&first_line), 0);

    assert!(resolve_with_lsp(&r, &vec![], &vec![]).is_none());

    let defs = vec![LspDefinition { uri: "file:///ws/src/book.rs".to_string(), range: range(10, 4, 12, 5) }];
    let symbols = vec![
        LspDocumentSymbol {
            kind: LspSymbolKind::Struct,
            detail: Some("pub".to_string()),
            documentation: None,
            deprecated: false,
            range: range(0, 0, 5, 0),
        },
        LspDocumentSymbol {
            kind: LspSymbolKind::Method,
            detail: Some("pub(crate)".to_string()),
            documentation: Some("Inserts an order".to_string()),
            deprecated: true,
            range: range(9, 0, 20, 0),
        },
    ];
    let out = resolve_with_lsp(&r, &defs, &symbols).unwrap();
    assert_eq!(out.qualified_name, "engine::Book::insert");
    assert_eq!(out.location.file_path, "/ws/src/book.rs");
    assert_eq!(out.location.line, 11);
    assert_eq!(out.location.column, 5);
    assert_eq!(out.kind, ResolvedSymbolKind::Method);
    assert_eq!(out.visibility, SymbolVisibility::PublicCrate);
    assert_eq!(out.documentation, Some("Inserts an order".to_string()));
    assert!(out.deprecated);
    assert_eq!(out.resolution_method, ResolutionMethod::LspSemantic);

    let none_holds = resolve_with_lsp(&r, &defs, &symbols[..1].to_vec()).unwrap();
    assert_eq!(none_holds.kind, ResolvedSymbolKind::Function);
    assert_eq!(none_holds.visibility, SymbolVisibility::Unknown);
    assert!(!none_holds.deprecated);
}
