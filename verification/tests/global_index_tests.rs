use workspace_analyzer::global_index::CrateExports;
use workspace_analyzer::global_index::CrateFunctionInfo;
use workspace_analyzer::global_index::CrateTraitInfo;
use workspace_analyzer::global_index::CrateTypeInfo;
use workspace_analyzer::global_index::GlobalSymbolIndex;
use workspace_analyzer::global_index::TraitMethodInfo;
use workspace_analyzer::global_index::TypeKind;
use workspace_analyzer::global_index::Visibility;
use workspace_analyzer::table::NameTable;

fn function(name: &str, crate_name: &str, associated_type: Option<&str>, trait_impl: Option<&str>) -> CrateFunctionInfo {
    CrateFunctionInfo {
        name: name.to_string(),
        crate_name: crate_name.to_string(),
        module_names: vec![],
        signature: format!("fn {}()", name),
        visibility: Visibility::Public,
        is_async: false,
        is_unsafe: false,
        is_extern: false,
        associated_type: associated_type.map(|s| s.to_string()),
        trait_impl: trait_impl.map(|s| s.to_string()),
        file_path: "/test/lib.rs".into(),
        line_number: Some(10),
    }
}

fn type_info(name: &str, crate_name: &str, associated: &[&str]) -> CrateTypeInfo {
    CrateTypeInfo {
        name: name.to_string(),
        crate_name: crate_name.to_string(),
        module_names: vec![],
        type_kind: TypeKind::Struct,
        visibility: Visibility::Public,
        methods: vec![],
        associated_functions: associated.iter().map(|s| s.to_string()).collect(),
        trait_impls: vec![],
        generic_params: vec![],
        file_path: "/test/lib.rs".into(),
        line_number: Some(5),
    }
}

#[test]
fn test_global_symbol_index_creation() {
    let index = GlobalSymbolIndex::new("/test".into());
    assert_eq!(index.functions.len(), 0);
    assert_eq!(index.types.len(), 0);
    assert_eq!(index.traits.len(), 0);
}

#[test]
fn test_add_and_find_function() {
    let mut index = GlobalSymbolIndex::new("/test".into());

    let func_info = CrateFunctionInfo {
        name: "test_func".to_string(),
        crate_name: "test_crate".to_string(),
        module_names: vec!["test".to_string()],
        signature: "fn test_func()".to_string(),
        visibility: Visibility::Public,
        is_async: false,
        is_unsafe: false,
        is_extern: false,
        associated_type: None,
        trait_impl: None,
        file_path: "/test/lib.rs".into(),
        line_number: Some(10),
    };

    index.add_function(func_info.clone());

    let found = index.find_function("test_func");
    assert!(found.is_some());
    assert_eq!(found.unwrap().len(), 1);
    assert_eq!(found.unwrap()[0].name, "test_func");
}

#[test]
fn test_resolve_associated_function() {
    let mut index = GlobalSymbolIndex::new("/test".into());

    let type_info = CrateTypeInfo {
        name: "TestType".to_string(),
        crate_name: "test_crate".to_string(),
        module_names: vec![],
        type_kind: TypeKind::Struct,
        visibility: Visibility::Public,
        methods: vec![],
        associated_functions: vec!["new".to_string()],
        trait_impls: vec![],
        generic_params: vec![],
        file_path: "/test/lib.rs".into(),
        line_number: Some(5),
    };

    let func_info = CrateFunctionInfo {
        name: "new".to_string(),
        crate_name: "test_crate".to_string(),
        module_names: vec![],
        signature: "fn new() -> Self".to_string(),
        visibility: Visibility::Public,
        is_async: false,
        is_unsafe: false,
        is_extern: false,
        associated_type: Some("TestType".to_string()),
        trait_impl: None,
        file_path: "/test/lib.rs".into(),
        line_number: Some(10),
    };

    index.add_type(type_info);
    index.add_function(func_info);

    let results = index.resolve_associated_function("TestType", "new");
    assert_eq!(results.len(), 1);
    assert_eq!(results[0].name, "new");
}

#[test]
fn find_in_crate_picks_the_crate() {
    let mut index = GlobalSymbolIndex::new("/ws".into());
    index.add_function(function("run", "alpha", None, None));
    index.add_function(function("run", "beta", None, None));
    assert_eq!(index.find_function("run").unwrap().len(), 2);
    assert_eq!(index.find_function_in_crate("run", "beta").unwrap().crate_name, "beta");
    assert!(index.find_function_in_crate("run", "gamma").is_none());
    assert!(index.find_function("missing").is_none());
    index.add_type(type_info("Widget", "alpha", &[]));
    assert_eq!(index.find_type_in_crate("Widget", "alpha").unwrap().name, "Widget");
    assert!(index.find_type_in_crate("Widget", "beta").is_none());
}

#[test]
fn associated_function_needs_same_crate_and_listing() {
    let mut index = GlobalSymbolIndex::new("/ws".into());
    index.add_type(type_info("Client", "net", &["connect"]));
    index.add_function(function("connect", "net", Some("Client"), None));
    index.add_function(function("connect", "other", Some("Client"), None));
    index.add_function(function("connect", "net", Some("Server"), None));
    let found = index.resolve_associated_function("Client", "connect");
    assert_eq!(found.len(), 1);
    assert_eq!(found[0].crate_name, "net");
    assert!(index.resolve_associated_function("Client", "close").is_empty());
}

#[test]
fn trait_method_resolution_finds_implementations() {
    let mut index = GlobalSymbolIndex::new("/ws".into());
    index.add_trait(CrateTraitInfo {
        name: "Handler".to_string(),
        crate_name: "core".to_string(),
        module_names: vec![],
        visibility: Visibility::Public,
        methods: vec![TraitMethodInfo {
            name: "handle".to_string(),
            signature: "fn handle(&self)".to_string(),
            is_async: false,
            is_unsafe: false,
            has_default_impl: false,
        }],
        associated_types: vec![],
        super_traits: vec![],
        generic_params: vec![],
        file_path: "/ws/core.rs".into(),
        line_number: Some(1),
    });
    index.add_function(function("handle", "app", None, Some("Handler")));
    index.add_function(function("handle", "app", None, None));
    let found = index.resolve_trait_method("Handler", "handle");
    assert_eq!(found.len(), 1);
    assert_eq!(found[0].trait_impl.as_deref(), Some("Handler"));
    assert_eq!(index.find_trait_in_crate("Handler", "core").unwrap().name, "Handler");
}

#[test]
fn crate_exports_are_replaced_and_cleared() {
    let mut index = GlobalSymbolIndex::new("/ws".into());
    let exports = |f: &str| CrateExports {
        crate_name: "alpha".to_string(),
        public_functions: vec![f.to_string()],
        public_types: vec![],
        public_traits: vec![],
        re_exports: NameTable::new(),
        glob_exports: vec![],
    };
    index.add_crate_exports(exports("one"));
    index.add_crate_exports(exports("two"));
    assert_eq!(index.get_crate_exports("alpha").unwrap().public_functions, vec!["two".to_string()]);
    index.add_function(function("f", "alpha", None, None));
    index.clear();
    assert!(index.get_crate_exports("alpha").is_none());
    assert!(index.find_function("f").is_none());
    assert_eq!(index.functions.len(), 0);
}

#[test]
fn stats_count_entries_and_names() {
    let mut index = GlobalSymbolIndex::new("/ws".into());
    index.add_function(function("a", "x", None, None));
    index.add_function(function("a", "y", None, None));
    index.add_function(function("b", "x", None, None));
    index.add_type(type_info("T", "x", &[]));
    let stats = index.stats();
    assert_eq!(stats.total_functions, 3);
    assert_eq!(stats.unique_function_names, 2);
    assert_eq!(stats.total_types, 1);
    assert_eq!(stats.total_traits, 0);
}

#[test]
fn cache_validity_compares_modification_times() {
    let index = GlobalSymbolIndex::new("/ws".into());
    assert!(!index.is_cache_valid(None, &[Some(1)]));
    assert!(index.is_cache_valid(Some(10), &[Some(3), None, Some(10)]));
    assert!(!index.is_cache_valid(Some(10), &[Some(3), Some(11)]));
    assert!(index.is_cache_valid(Some(0), &[]));
}

#[test]
fn default_cache_path_is_under_target() {
    let index = GlobalSymbolIndex::new("/ws".into());
    assert_eq!(index.default_cache_path(), "/ws/target/.workspace-analyzer-cache.bin.gz");
    let index = GlobalSymbolIndex::new("/ws/".into());
    assert_eq!(index.default_cache_path(), "/ws/target/.workspace-analyzer-cache.bin.gz");
}
