use workspace_analyzer::analysis::analyze_contents;
use workspace_analyzer::analysis::parse_source_text;
use workspace_analyzer::analysis::SourceText;

fn text(path: &str, crate_name: &str, module: &str, content: &str) -> SourceText {
    SourceText {
        file_path: path.to_string(),
        crate_name: crate_name.to_string(),
        module_prefix: module.to_string(),
        content: content.to_string(),
    }
}

#[test]
fn parsing_a_text_gives_its_tree() {
    let t = text("src/lib.rs", "engine", "engine", "pub fn run() {}\n\nstruct Book;\n");
    let f = parse_source_text(&t).expect("the text parses");
    assert_eq!(f.tree.kind, "source_file");
    assert_eq!(f.tree.start_row, 0);
    assert_eq!(f.file_path, "src/lib.rs");
    assert_eq!(f.crate_name, "engine");
    assert_eq!(f.module_prefix, "engine");
    let kinds: Vec<&str> = f.tree.children.iter().map(|c| c.kind.as_str()).collect();
    assert_eq!(kinds, vec!["function_item", "struct_item"]);
    assert_eq!(f.tree.children[0].text, "pub fn run() {}");
    assert_eq!(f.tree.children[1].start_row, 2);
}

#[test]
fn oversized_text_is_left_out() {
    let mut body = String::from("fn big() {}\n");
    while body.len() <= 500_000 {
        body.push_str("// padding padding padding padding padding padding padding\n");
    }
    let t = text("src/big.rs", "engine", "engine::big", &body);
    assert!(parse_source_text(&t).is_none());
    let (snapshot, stats) = analyze_contents(&[t]);
    assert!(snapshot.functions.is_empty());
    assert_eq!(stats.total_references, 0);
}

#[test]
fn analysis_of_texts_reads_functions_types_and_calls() {
    let lib = text(
        "src/lib.rs",
        "engine",
        "engine",
        "pub fn place_order() {\n    validate();\n}\n\nfn validate() {}\n\npub struct Order {\n    id: u64,\n}\n",
    );
    let other = text("src/book.rs", "engine", "engine::book", "pub fn depth() -> usize { 0 }\n");
    let (snapshot, stats) = analyze_contents(&[lib, other]);
    let names: Vec<&str> = snapshot.functions.iter().map(|f| f.name.as_str()).collect();
    assert_eq!(names, vec!["place_order", "validate", "depth"]);
    assert_eq!(snapshot.functions[0].qualified_name, "engine::place_order");
    assert_eq!(snapshot.functions[0].line_start, 1);
    assert_eq!(snapshot.functions[0].line_end, 3);
    assert_eq!(snapshot.functions[2].qualified_name, "engine::book::depth");
    assert_eq!(snapshot.types.len(), 1);
    assert_eq!(snapshot.types[0].name, "Order");
    assert_eq!(stats.total_references, snapshot.function_references.len());
    assert!(snapshot.function_references.iter().any(|r| r.target_function.ends_with("validate") && r.line == 2));
    assert_eq!(stats.failed_resolutions, 0);
    let cross_after = snapshot.function_references.iter().filter(|r| r.cross_crate).count();
    assert_eq!(stats.cross_crate_detected_resolution, cross_after - stats.cross_crate_detected_syntax);
}
