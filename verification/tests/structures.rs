use elm_pair::change::{classify_change, ChangeKind};
use elm_pair::editors::{Buffer, Id};
use elm_pair::exports::ExportedName;
use elm_pair::idat::parse_idat;
use elm_pair::kinds::{EXPOSED_VALUE, EXPOSING_LIST, LOWER_CASE_IDENTIFIER, FUNCTION_DECLARATION_LEFT, MODULE_NAME_SEGMENT, DOT};
use elm_pair::names::{
    constructors_of_exports, exposing_list_changes, names_of_exposed, ExposedConstructors,
    ExposedName, NameKind,
};
use elm_pair::refactor::Refactor;
use elm_pair::sized_stack::SizedStack;
use elm_pair::tree_diff::{diff_level, goto_first_changed_sibling, FirstChangedSibling, LevelDiff, NodeKey};

#[test]
fn sized_stack_forgets_oldest_when_full() {
    let mut stack = SizedStack::with_capacity(2);
    stack.push(1);
    stack.push(2);
    stack.push(3);
    assert_eq!(stack.pop(), Some(3));
    assert_eq!(stack.pop(), Some(2));
    assert!(stack.is_empty());
}

#[test]
fn sized_stack_push_then_pop_gives_back_the_item() {
    let mut stack = SizedStack::with_capacity(3);
    stack.push("a");
    stack.push("b");
    assert_eq!(stack.pop(), Some("b"));
    assert_eq!(stack.pop(), Some("a"));
}

#[test]
fn changed_buffers_lists_each_buffer_once() {
    let b1 = Buffer { editor_id: Id::new(1), buffer_id: 1 };
    let b2 = Buffer { editor_id: Id::new(1), buffer_id: 2 };
    let mut refactor = Refactor::new("test");
    refactor.add_change(b1, 0..1, "a".to_string());
    refactor.add_change(b2, 2..3, "b".to_string());
    refactor.add_change(b1, 4..5, "c".to_string());
    assert_eq!(refactor.changed_buffers(), vec![b1, b2]);
    refactor.open_files(vec!["/x.elm".to_string()]);
    assert_eq!(refactor.files(), &vec!["/x.elm".to_string()]);
    assert_eq!(refactor.description, "test");
}

fn node(id: usize, kind_id: u16, text: &str, child_count: usize) -> NodeKey {
    NodeKey { id, kind_id, text: text.to_string(), child_count }
}

#[test]
fn first_changed_sibling_cases() {
    let a = vec![node(1, 5, "a", 0), node(2, 5, "b", 0)];
    let same = vec![node(9, 5, "a", 0), node(2, 5, "b", 0)];
    let changed = vec![node(1, 5, "a", 0), node(3, 5, "c", 0)];
    let longer = vec![node(1, 5, "a", 0), node(2, 5, "b", 0), node(4, 5, "d", 0)];
    assert_eq!(goto_first_changed_sibling(&a, &same), FirstChangedSibling::NoneFound);
    assert_eq!(goto_first_changed_sibling(&a, &changed), FirstChangedSibling::OldAndNewAtFirstChanged(1));
    assert_eq!(goto_first_changed_sibling(&a, &longer), FirstChangedSibling::NewAtFirstAdditional(2));
    assert_eq!(goto_first_changed_sibling(&longer, &a), FirstChangedSibling::OldAtFirstAdditional(2));
}

#[test]
fn diff_level_descends_into_single_changed_parent() {
    let old = vec![node(1, 5, "f x", 2)];
    let new = vec![node(2, 5, "f y", 2)];
    assert_eq!(diff_level(&old, &new), LevelDiff::Descend(0));
    let old2 = vec![node(1, 5, "a", 0), node(2, 6, "b", 0), node(3, 7, "c", 0)];
    let new2 = vec![node(1, 5, "a", 0), node(4, 6, "x", 0), node(5, 6, "y", 0), node(3, 7, "c", 0)];
    assert_eq!(diff_level(&old2, &new2), LevelDiff::Replaced { index: 1, old_count: 1, new_count: 2 });
    assert_eq!(diff_level(&old2, &old2), LevelDiff::Unchanged);
}

#[test]
fn classifies_edits() {
    assert_eq!(classify_change(&vec![], &vec![EXPOSED_VALUE], EXPOSING_LIST), ChangeKind::ChangedValuesInExposingList);
    assert_eq!(
        classify_change(&vec![LOWER_CASE_IDENTIFIER], &vec![LOWER_CASE_IDENTIFIER], FUNCTION_DECLARATION_LEFT),
        ChangeKind::ChangedValueName
    );
    assert_eq!(
        classify_change(&vec![LOWER_CASE_IDENTIFIER], &vec![MODULE_NAME_SEGMENT, DOT, LOWER_CASE_IDENTIFIER], 0),
        ChangeKind::AddedModuleQualifierToName
    );
    assert_eq!(classify_change(&vec![], &vec![EXPOSING_LIST], 0), ChangeKind::AddedExposingListToImport);
}

fn sample_exports() -> Vec<ExportedName> {
    vec![
        ExportedName::Value { name: "map".to_string() },
        ExportedName::Type { name: "Maybe".to_string(), constructors: vec!["Just".to_string(), "Nothing".to_string()] },
        ExportedName::RecordTypeAlias { name: "Point".to_string() },
    ]
}

#[test]
fn names_brought_in_by_exposed_entries() {
    let exports = sample_exports();
    let ty = ExposedName::Type { name: "Maybe".to_string(), exposing_constructors: true };
    let names: Vec<(String, NameKind)> =
        names_of_exposed(&ty, &exports).into_iter().map(|n| (n.name, n.kind)).collect();
    assert_eq!(
        names,
        vec![
            ("Maybe".to_string(), NameKind::Type),
            ("Just".to_string(), NameKind::Constructor),
            ("Nothing".to_string(), NameKind::Constructor)
        ]
    );
    let all: Vec<(String, NameKind)> =
        names_of_exposed(&ExposedName::All, &exports).into_iter().map(|n| (n.name, n.kind)).collect();
    assert_eq!(all.len(), 6);
    assert_eq!(all[5], ("Point".to_string(), NameKind::Type));
}

#[test]
fn constructors_of_exports_finds_first_match() {
    let exports = sample_exports();
    match constructors_of_exports(&exports, "Maybe").unwrap() {
        ExposedConstructors::FromCustomType(cs) => assert_eq!(cs.len(), 2),
        ExposedConstructors::FromTypeAlias(_) => panic!("expected a custom type"),
    }
    let only_values = vec![ExportedName::Value { name: "x".to_string() }];
    assert!(constructors_of_exports(&only_values, "Maybe").unwrap_err().0.contains("did not find type in module"));
}

fn text(out: &mut Vec<u8>, s: &str) {
    out.push(s.len() as u8);
    out.extend_from_slice(s.as_bytes());
}

fn count(out: &mut Vec<u8>, n: u64) {
    out.extend_from_slice(&n.to_be_bytes());
}

#[test]
fn idat_with_no_modules() {
    let mut bytes = Vec::new();
    count(&mut bytes, 0);
    assert_eq!(parse_idat(&bytes).unwrap(), vec![]);
}

#[test]
fn idat_with_one_public_module() {
    let mut bytes = Vec::new();
    count(&mut bytes, 1);
    text(&mut bytes, "elm");
    text(&mut bytes, "core");
    text(&mut bytes, "Basics");
    bytes.push(0); // public interface
    text(&mut bytes, "elm");
    text(&mut bytes, "core");
    count(&mut bytes, 1); // values
    text(&mut bytes, "pi");
    count(&mut bytes, 0); // no type variables
    bytes.push(3); // the unit type
    count(&mut bytes, 0); // unions
    count(&mut bytes, 0); // aliases
    count(&mut bytes, 0); // binops
    assert_eq!(
        parse_idat(&bytes).unwrap(),
        vec![("Basics".to_string(), ExportedName::Value { name: "pi".to_string() })]
    );
    assert!(parse_idat(&bytes[..bytes.len() - 1]).is_err());
}

#[test]
fn exposing_list_edit_qualifies_removed_and_unqualifies_added_names() {
    let exports = sample_exports();
    let old_list = vec![
        ExposedName::Value { name: "map".to_string() },
        ExposedName::Type { name: "Maybe".to_string(), exposing_constructors: true },
    ];
    let new_list = vec![
        ExposedName::Type { name: "Maybe".to_string(), exposing_constructors: false },
        ExposedName::Type { name: "Point".to_string(), exposing_constructors: false },
    ];
    let (to_qualify, to_unqualify) = exposing_list_changes(&old_list, &new_list, &exports);
    let q: Vec<(String, NameKind)> = to_qualify.into_iter().map(|n| (n.name, n.kind)).collect();
    let u: Vec<(String, NameKind)> = to_unqualify.into_iter().map(|n| (n.name, n.kind)).collect();
    assert_eq!(
        q,
        vec![
            ("map".to_string(), NameKind::Value),
            ("Just".to_string(), NameKind::Constructor),
            ("Nothing".to_string(), NameKind::Constructor)
        ]
    );
    assert_eq!(
        u,
        vec![("Point".to_string(), NameKind::Type), ("Point".to_string(), NameKind::Constructor)]
    );
    let (none_q, none_u) = exposing_list_changes(&old_list, &old_list, &exports);
    assert!(none_q.is_empty() && none_u.is_empty());
}
