use elm_pair::compilation::is_new_revision;
use elm_pair::compiler::{is_supported_version, Compiler};
use elm_pair::project::{elm_json_path, idat_path, root, root_from_elm_json_path, root_from_idat_path};
use elm_pair::project_directory;

// The file system of these tests: the files that exist.
fn file_exists_among(files: &'static [&'static str]) -> impl Fn(&str) -> bool {
    move |p: &str| files.contains(&p)
}

#[test]
fn project_finds_root_when_ancestor_directory_contains_elm_json() {
    let has_file = file_exists_among(&["/tmp/t/project/elm.json"]);
    let found = root("/tmp/t/project/src/long/winding/path", has_file).unwrap();
    assert_eq!(found, "/tmp/t/project");
}

#[test]
fn project_returns_error_when_no_ancestor_directory_contains_elm_json() {
    let has_file = file_exists_among(&["/tmp/t/other/elm.json"]);
    assert!(root("/tmp/t/project/src/long/winding/path", has_file).is_err());
}

#[test]
fn project_directory_finds_root_when_ancestor_directory_contains_elm_json() {
    let has_file = file_exists_among(&["/tmp/t/project/elm.json"]);
    let found = project_directory::root("/tmp/t/project/src/long/winding/path", has_file).unwrap();
    assert_eq!(found, "/tmp/t/project");
}

#[test]
fn project_directory_returns_error_when_no_ancestor_directory_contains_elm_json() {
    let has_file = file_exists_among(&[]);
    assert!(project_directory::root("/tmp/t/project/src/long/winding/path", has_file).is_err());
}

#[test]
fn nearest_root_wins() {
    let has_file = file_exists_among(&["/a/elm.json", "/a/b/elm.json"]);
    assert_eq!(root("/a/b/c", has_file).unwrap(), "/a/b");
}

#[test]
fn project_file_locations() {
    assert_eq!(elm_json_path("/project"), "/project/elm.json");
    assert_eq!(idat_path("/project"), "/project/elm-stuff/0.19.1/i.dat");
    assert_eq!(root_from_elm_json_path("/project/elm.json").unwrap(), "/project");
    assert_eq!(root_from_idat_path("/project/elm-stuff/0.19.1/i.dat").unwrap(), "/project");
    assert!(root_from_elm_json_path("/").is_err());
    assert!(root_from_idat_path("a/b").is_err());
}

#[test]
fn compiler_version_must_match() {
    assert!(is_supported_version(b"0.19.1\n"));
    assert!(!is_supported_version(b"0.19.0\n"));
    assert!(!is_supported_version(b"0.19"));
}

#[test]
fn compiler_prefers_binaries_in_order() {
    let outputs = |p: &str| -> Option<Vec<u8>> {
        match p {
            "/nix/elm" => Some(b"0.18.0".to_vec()),
            "/plugin/elm" => Some(b"0.19.1".to_vec()),
            _ => None,
        }
    };
    let c = Compiler::new(Some("/nix/elm"), Some("/plugin/elm"), outputs).unwrap();
    assert_eq!(c.elm_binary_path(), "/plugin/elm");
    let fallback = Compiler::new(None, None, |p: &str| {
        if p == "elm" { Some(b"0.19.1 extra".to_vec()) } else { None }
    })
    .unwrap();
    assert_eq!(fallback.elm_binary_path(), "elm");
    let err = Compiler::new(None, None, |_: &str| None).unwrap_err();
    assert!(err.0.contains("Could not find an Elm binary with the right version: 0.19.1"));
}

#[test]
fn only_newer_revisions_are_new() {
    let mut last = None;
    assert!(is_new_revision(&mut last, 4));
    assert_eq!(last, Some(4));
    assert!(!is_new_revision(&mut last, 4));
    assert!(!is_new_revision(&mut last, 2));
    assert!(is_new_revision(&mut last, 6));
    assert_eq!(last, Some(6));
}

#[test]
fn the_interface_file_of_a_root_leads_back_to_it() {
    for root in ["/project", "relative/dir", "/a/b.c/d", "x"] {
        assert_eq!(root_from_idat_path(&idat_path(root)).unwrap(), root);
    }
    assert!(root_from_idat_path("i.dat").is_err());
}

#[test]
fn the_elm_json_of_a_root_leads_back_to_it() {
    for root in ["/project", "relative/dir", "x"] {
        assert_eq!(root_from_elm_json_path(&elm_json_path(root)).unwrap(), root);
    }
}

#[test]
fn the_interface_file_of_any_root_leads_back_to_a_path_with_its_components() {
    for root in ["/project/", "a/./b", "", "/", ".", "../up", "x//y"] {
        let found = root_from_idat_path(&idat_path(root)).unwrap().to_string();
        assert_eq!(std::path::Path::new(&found), std::path::Path::new(root));
    }
}
