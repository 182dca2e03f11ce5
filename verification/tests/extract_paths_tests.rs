use workspace_analyzer::analysis::analyze_sources;
use workspace_analyzer::analysis::within_analysis_size;
use workspace_analyzer::analysis::SourceFile;
use workspace_analyzer::extract::extract_file_imports;
use workspace_analyzer::extract::extract_functions;
use workspace_analyzer::extract::extract_types;
use workspace_analyzer::extract::parse_call_dependency;
use workspace_analyzer::extract::parse_import_path;
use workspace_analyzer::extract::parse_use_dependency;
use workspace_analyzer::paths::crate_name_from_manifest_dirs;
use workspace_analyzer::paths::file_stem_of;
use workspace_analyzer::paths::get_file_module;
use workspace_analyzer::paths::get_file_module_path;
use workspace_analyzer::syntax::SyntaxNode;

fn leaf(kind: &str, field: Option<&str>, text: &str, row: usize) -> SyntaxNode {
    SyntaxNode {
        kind: kind.to_string(),
        field: field.map(|f| f.to_string()),
        text: text.to_string(),
        start_row: row,
        end_row: row,
        children: Vec::new(),
    }
}

fn node(kind: &str, field: Option<&str>, text: &str, start: usize, end: usize, children: Vec<SyntaxNode>) -> SyntaxNode {
    SyntaxNode {
        kind: kind.to_string(),
        field: field.map(|f| f.to_string()),
        text: text.to_string(),
        start_row: start,
        end_row: end,
        children,
    }
}

fn sample_tree() -> SyntaxNode {
    let add = node(
        "function_item",
        None,
        "pub fn add(a: i32, b: i32) -> i32 { a + b }",
        2,
        4,
        vec![
            leaf("visibility_modifier", None, "pub", 2),
            leaf("identifier", Some("name"), "add", 2),
            leaf("parameters", Some("parameters"), "(a: i32, b: i32)", 2),
            leaf("primitive_type", Some("return_type"), "i32", 2),
            node("block", Some("body"), "{ a + b }", 2, 4, vec![]),
        ],
    );
    let helper = node(
        "function_item",
        None,
        "fn helper() {}",
        7,
        7,
        vec![
            leaf("identifier", Some("name"), "helper", 7),
            leaf("parameters", Some("parameters"), "()", 7),
            node("block", Some("body"), "{}", 7, 7, vec![]),
        ],
    );
    let inner = node(
        "mod_item",
        None,
        "mod inner { fn helper() {} }",
        6,
        8,
        vec![
            leaf("identifier", Some("name"), "inner", 6),
            node("declaration_list", Some("body"), "{ fn helper() {} }", 6, 8, vec![helper]),
        ],
    );
    let point = node(
        "struct_item",
        None,
        "pub struct Point { x: i32 }",
        10,
        10,
        vec![
            leaf("visibility_modifier", None, "pub", 10),
            leaf("type_identifier", Some("name"), "Point", 10),
        ],
    );
    let shape = node(
        "enum_item",
        None,
        "enum Shape { A }",
        11,
        11,
        vec![leaf("type_identifier", Some("name"), "Shape", 11)],
    );
    node(
        "source_file",
        None,
        "",
        0,
        12,
        vec![
            leaf("use_declaration", None, "use std::collections::{HashMap};", 0),
            add,
            inner,
            point,
            shape,
        ],
    )
}

#[test]
fn imports_are_read_from_use_declarations() {
    assert_eq!(parse_import_path("use std::collections::{HashMap, HashSet};"), Some("std::collections::HashMap, HashSet".to_string()));
    assert_eq!(parse_import_path("use crate::a::*;"), Some("crate::a::".to_string()));
    assert_eq!(parse_import_path("pub use x;"), None);
    assert_eq!(extract_file_imports(&sample_tree()), vec!["std::collections::HashMap".to_string()]);
}

#[test]
fn functions_are_read_with_module_paths() {
    let fs = extract_functions(&sample_tree(), "src/lib.rs", "my_crate");
    let names: Vec<&str> = fs.iter().map(|f| f.qualified_name.as_str()).collect();
    assert_eq!(names, vec!["my_crate::add", "my_crate::inner::helper", "my_crate::helper"]);
    assert_eq!(fs[0].visibility, "pub");
    assert_eq!(fs[0].parameters, vec!["a: i32".to_string(), "b: i32".to_string()]);
    assert_eq!(fs[0].return_type, Some("i32".to_string()));
    assert_eq!(fs[0].line_start, 3);
    assert_eq!(fs[0].line_end, 5);
    assert_eq!(fs[1].visibility, "private");
    assert!(fs[1].parameters.is_empty());
    assert_eq!(fs[1].module, "my_crate::inner");
}

#[test]
fn types_are_read_with_their_kind() {
    let ts = extract_types(&sample_tree(), "src/lib.rs", "");
    assert_eq!(ts.len(), 2);
    assert_eq!(ts[0].qualified_name, "Point");
    assert_eq!(ts[0].type_kind, "struct");
    assert_eq!(ts[0].visibility, "pub");
    assert_eq!(ts[1].type_kind, "enum");
    assert_eq!(ts[1].line_start, 12);
}

#[test]
fn dependencies_of_uses_and_qualified_calls() {
    let u = leaf("use_declaration", None, "use  serde::Serialize;", 4);
    let d = parse_use_dependency(&u, "src/model.rs").unwrap();
    assert_eq!(d.from_module, "model");
    assert_eq!(d.to_module, "serde::Serialize");
    assert_eq!(d.dependency_type, "use");
    assert_eq!(d.line, 5);
    let call = node(
        "call_expression",
        None,
        "std::mem::swap(a, b)",
        9,
        9,
        vec![leaf("scoped_identifier", Some("function"), "std::mem::swap", 9)],
    );
    let d = parse_call_dependency(&call, "src/lib.rs").unwrap();
    assert_eq!(d.to_module, "std::mem");
    assert_eq!(d.dependency_type, "call");
    let local = node("call_expression", None, "run()", 1, 1, vec![leaf("identifier", Some("function"), "run", 1)]);
    assert!(parse_call_dependency(&local, "src/lib.rs").is_none());
}

#[test]
fn module_paths_of_files() {
    assert_eq!(get_file_module("src/engine/book.rs"), "book");
    assert_eq!(get_file_module(""), "unknown");
    assert_eq!(file_stem_of("a/b/archive.tar.gz"), Some("archive.tar".to_string()));
    assert_eq!(file_stem_of("a/.hidden"), Some(".hidden".to_string()));
    assert_eq!(get_file_module_path(Some("core"), Some("src/engine/book.rs")), "core::engine::book");
    assert_eq!(get_file_module_path(Some("core"), Some("src/engine/mod.rs")), "core::engine");
    assert_eq!(get_file_module_path(Some("core"), Some("src/lib.rs")), "core");
    assert_eq!(get_file_module_path(Some("core"), None), "core");
    assert_eq!(get_file_module_path(None, Some("src/lib.rs")), "unknown");
    assert_eq!(
        crate_name_from_manifest_dirs(&[None, Some("trading-backend-poc".to_string()), Some("engine".to_string())]),
        "engine"
    );
    assert_eq!(crate_name_from_manifest_dirs(&[Some("trading-backend-poc".to_string())]), "unknown");
}

#[test]
fn analysis_of_sources_builds_snapshot() {
    assert!(within_analysis_size(500_000));
    assert!(!within_analysis_size(500_001));
    let files = vec![SourceFile {
        file_path: "src/lib.rs".to_string(),
        crate_name: "my_crate".to_string(),
        module_prefix: "my_crate".to_string(),
        tree: sample_tree(),
    }];
    let (snapshot, _stats) = analyze_sources(&files);
    assert_eq!(snapshot.functions.len(), 3);
    assert_eq!(snapshot.types.len(), 2);
}
