use elm_pair::imports::{find_unimported_qualifiers, import_lines, import_position, is_implicit_import};
use elm_pair::kinds::{BLOCK_COMMENT, MODULE_DECLARATION, VALUE_DECLARATION};

#[test]
fn implicit_imports_are_recognized() {
    assert!(is_implicit_import("Maybe"));
    assert!(is_implicit_import("Tuple"));
    assert!(!is_implicit_import("Json.Decode"));
}

#[test]
fn unimported_qualifiers_are_found_once() {
    let imports = vec!["Html".to_string(), "D".to_string()];
    let references = vec![
        ("Html".to_string(), "div".to_string()),
        ("Dict".to_string(), "empty".to_string()),
        ("Dict".to_string(), "insert".to_string()),
        ("Set".to_string(), "".to_string()),
        ("D".to_string(), "string".to_string()),
    ];
    assert_eq!(find_unimported_qualifiers(&imports, &references), vec!["Dict".to_string()]);
}

#[test]
fn import_lines_skip_implicit_and_unknown_modules() {
    let names = vec!["Dict".to_string(), "List".to_string(), "Nope".to_string()];
    assert_eq!(import_lines(&names, &vec![true, true, false]), vec!["import Dict\n".to_string()]);
}

#[test]
fn imports_go_after_the_module_declaration_and_comments() {
    let nodes = vec![(MODULE_DECLARATION, 0), (BLOCK_COMMENT, 30), (VALUE_DECLARATION, 50)];
    assert_eq!(import_position(&nodes, 0), 50);
    assert_eq!(import_position(&vec![(MODULE_DECLARATION, 0)], 0), 0);
    assert_eq!(import_position(&vec![], 7), 7);
}
