use elm_pair::editors::{Buffer, Id};
use elm_pair::names::{Name, NameKind};
use elm_pair::refactor::Refactor;
use elm_pair::renaming::{
    decimal_text, definitions_with_scopes, first_free_name, innermost_scope, names_with_digit, rename,
    scopes_of_name,
};

#[test]
fn iterator_returns_values_with_increasing_trailing_digit() {
    let base_reference = Name::new("hi", NameKind::Value);
    let mut names = names_with_digit(&base_reference);
    let first_three: Vec<String> =
        (0..3).map(|_| names.next().unwrap().name).collect();
    assert_eq!(first_three, vec!["hi2", "hi3", "hi4"]);
}

#[test]
fn decimal_text_of_numbers() {
    assert_eq!(decimal_text(0), "0");
    assert_eq!(decimal_text(7), "7");
    assert_eq!(decimal_text(10), "10");
    assert_eq!(decimal_text(1203), "1203");
}

#[test]
fn first_free_name_skips_names_in_use() {
    let base = Name::new("violin", NameKind::Value);
    let in_use = vec![
        Name::new("violin", NameKind::Value),
        Name::new("violin2", NameKind::Value),
        Name::new("violin3", NameKind::Type),
    ];
    let free = first_free_name(&base, &in_use);
    assert_eq!(free.name, "violin3");
    assert_eq!(free.kind, NameKind::Value);
}

#[test]
fn innermost_scope_is_the_shortest_containing_one() {
    let scopes = vec![0..100, 10..50, 20..30, 15..25, 60..70];
    assert_eq!(innermost_scope(&scopes, 22), Some(20..30));
    assert_eq!(innermost_scope(&scopes, 12), Some(10..50));
    assert_eq!(innermost_scope(&scopes, 65), Some(60..70));
    assert_eq!(innermost_scope(&scopes, 100), None);
}

#[test]
fn rename_touches_only_matching_names_within_and_outside_skipped_ranges() {
    let buffer = Buffer { editor_id: Id::new(1), buffer_id: 2 };
    let from = Name::new("x", NameKind::Value);
    let to = Name::new("x2", NameKind::Value);
    let occurrences = vec![
        (0..1, Name::new("x", NameKind::Value)),
        (5..6, Name::new("y", NameKind::Value)),
        (10..11, Name::new("x", NameKind::Value)),
        (20..21, Name::new("x", NameKind::Value)),
        (30..31, Name::new("x", NameKind::Type)),
    ];
    let mut refactor = Refactor::new("rename");
    rename(&mut refactor, buffer, &occurrences, &from, &to, &vec![0..25], &vec![9..12]);
    assert_eq!(
        refactor.replacements(),
        &vec![(buffer, 0..1, "x2".to_string()), (buffer, 20..21, "x2".to_string())]
    );
    assert_eq!(refactor.changed_buffers(), vec![buffer]);
    let mut everywhere = Refactor::new("rename everywhere");
    rename(&mut everywhere, buffer, &occurrences, &from, &to, &vec![], &vec![]);
    assert_eq!(everywhere.replacements().len(), 3);
    let mut nowhere = Refactor::new("rename nowhere");
    rename(&mut nowhere, buffer, &occurrences, &from, &to, &vec![100..200], &vec![]);
    assert_eq!(nowhere.changed_buffers(), vec![]);
}

#[test]
fn definitions_are_paired_with_their_innermost_scope() {
    let x = Name::new("x", NameKind::Value);
    let y = Name::new("y", NameKind::Value);
    let occurrences = vec![(5, true, x.clone()), (7, false, x.clone()), (25, true, y.clone()), (200, true, y.clone())];
    let scopes = vec![0..100, 20..30];
    let defs = definitions_with_scopes(&occurrences, &scopes);
    let simple: Vec<(String, std::ops::Range<usize>)> =
        defs.iter().map(|(n, r)| (n.name.clone(), r.clone())).collect();
    assert_eq!(simple, vec![("x".to_string(), 0..100), ("y".to_string(), 20..30)]);

    assert_eq!(scopes_of_name(&defs, &y, &vec![]), vec![20..30]);
    assert_eq!(scopes_of_name(&defs, &x, &vec![50..51]), vec![0..100]);
    assert_eq!(scopes_of_name(&defs, &y, &vec![50..51]), Vec::<std::ops::Range<usize>>::new());
}
