use terminal_api::discover::{discover_api_module_names, module_name};

fn files(names: &[&str]) -> Vec<String> {
    names.iter().map(|n| n.to_string()).collect()
}

#[test]
fn test_discover_api_module_names() {
    let mut module_names = discover_api_module_names(&files(&[
        "valid_api.rs",
        "another_api.rs",
        "mod.rs",
        "configuration.rs",
        "not_a_rust_file.txt",
    ]));
    module_names.sort(); // sort for deterministic comparison

    assert_eq!(module_names, vec!["another_api".to_string(), "valid_api".to_string()]);
}

#[test]
fn discovery_keeps_the_order_of_the_files() {
    let found = discover_api_module_names(&files(&["b.rs", "mod.rs", "a.rs", "c.txt", "b.rs"]));
    assert_eq!(found, vec!["b", "a", "b"]);
    let found = discover_api_module_names(&files(&["a.rs", "b.rs", "b.rs", "mod.rs", "c.txt"]));
    assert_eq!(found, vec!["a", "b", "b"]);
    assert!(discover_api_module_names(&files(&[])).is_empty());
}

#[test]
fn discovery_counts_source_files_without_the_reserved_ones() {
    let names = files(&[
        "x.rs", "mod.rs", "y.rs", "configuration.rs", "z.rs", "README.md", "rs", ".rs", "w.rs.bak",
    ]);
    // five files with the extension, two of them reserved
    assert_eq!(discover_api_module_names(&names).len(), 5 - 2);
}

#[test]
fn which_files_are_modules() {
    assert_eq!(module_name("token_api.rs"), Some("token_api".to_string()));
    assert_eq!(module_name("a.b.rs"), Some("a.b".to_string()));
    assert_eq!(module_name("a.rs"), Some("a".to_string()));
    assert_eq!(module_name(".hidden.rs"), Some(".hidden".to_string()));
    assert_eq!(module_name("..rs"), Some(".".to_string()));
    assert_eq!(module_name("\u{e9}t\u{e9}.rs"), Some("\u{e9}t\u{e9}".to_string()));
    assert_eq!(module_name("Mod.rs"), Some("Mod".to_string()));
    assert_eq!(module_name("mod.rs.rs"), Some("mod.rs".to_string()));
    assert_eq!(module_name("mod.rs"), None);
    assert_eq!(module_name("configuration.rs"), None);
    assert_eq!(module_name(".rs"), None);
    assert_eq!(module_name("rs"), None);
    assert_eq!(module_name(""), None);
    assert_eq!(module_name("a.RS"), None);
    assert_eq!(module_name("a.rs "), None);
    assert_eq!(module_name("a.rss"), None);
    assert_eq!(module_name("a.txt"), None);
    assert_eq!(module_name("a."), None);
    assert_eq!(module_name("ars"), None);
    assert_eq!(module_name("makefile"), None);
}
