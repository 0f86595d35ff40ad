use elm_pair::module_name::{from_path, ModuleName};

#[test]
fn top_level_module() {
    assert_eq!(
        from_path("/project/src", "/project/src/TopLevel.elm").unwrap(),
        ModuleName::from_str("TopLevel")
    );
}

#[test]
fn nested_module() {
    assert_eq!(
        from_path("/project/src", "/project/src/Some/Nested/Module.elm").unwrap(),
        ModuleName::from_str("Some.Nested.Module")
    );
}

#[test]
fn path_not_in_src_module() {
    assert!(from_path("/project/src", "/elsewhere/Some/Nested/Module.elm").is_err());
}

#[test]
fn source_directory_must_match_whole_directory_names() {
    assert!(from_path("/project/src", "/project/srcs/Module.elm").is_err());
}

#[test]
fn module_name_text_round_trips() {
    assert_eq!(ModuleName::from_str("Json.Decode").as_str(), "Json.Decode");
}
