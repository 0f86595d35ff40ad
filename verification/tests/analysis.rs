use elm_pair::analysis::{
    diff_candidate, replaces_last_compiling, AnalysisState, IdleAction, RefactorAction, RefactorHistory,
};
use elm_pair::editors::{Buffer, Id, RefactorAllowed};
use elm_pair::source_code::{Edit, InputEdit, Point};

fn buffer() -> Buffer {
    Buffer { editor_id: Id::new(3), buffer_id: 4 }
}

fn edit(text: &str) -> Edit {
    let p = Point { row: 0, column: 0 };
    Edit {
        buffer: buffer(),
        input_edit: InputEdit {
            start_byte: 0,
            old_end_byte: 0,
            new_end_byte: text.len(),
            start_position: p,
            old_end_position: p,
            new_end_position: p,
        },
        new_bytes: text.to_string(),
    }
}

#[test]
fn only_newer_code_with_refactors_allowed_is_diffed() {
    let b = buffer();
    assert_eq!(diff_candidate(Some((b, RefactorAllowed::Yes)), Some(4), Some(2)), Some(b));
    assert_eq!(diff_candidate(Some((b, RefactorAllowed::No)), Some(4), Some(2)), None);
    assert_eq!(diff_candidate(Some((b, RefactorAllowed::Yes)), Some(2), Some(2)), None);
    assert_eq!(diff_candidate(None, Some(4), Some(2)), None);
    assert_eq!(diff_candidate(Some((b, RefactorAllowed::Yes)), Some(4), None), None);
}

#[test]
fn last_compiling_code_is_replaced_only_by_newer_code() {
    assert!(replaces_last_compiling(None, 0));
    assert!(replaces_last_compiling(Some(3), 3));
    assert!(!replaces_last_compiling(Some(3), 2));
}

#[test]
fn repeated_refactor_is_dropped() {
    let mut history = RefactorHistory::new();
    let edits = vec![edit("a")];
    assert_eq!(history.decide(&edits, 0, true), RefactorAction::Apply);
    history.record(edits.clone());
    assert_eq!(history.decide(&edits, 0, true), RefactorAction::DropRepeat);
    assert!(!history.contains(&edits));
    assert_eq!(history.decide(&edits, 0, true), RefactorAction::Apply);
}

#[test]
fn history_keeps_the_last_two_refactors() {
    let mut history = RefactorHistory::new();
    history.record(vec![edit("a")]);
    history.record(vec![edit("b")]);
    history.record(vec![edit("c")]);
    assert!(!history.contains(&vec![edit("a")]));
    assert!(history.contains(&vec![edit("b")]));
    assert!(history.contains(&vec![edit("c")]));
}

#[test]
fn refactor_actions_in_order_of_precedence() {
    let mut history = RefactorHistory::new();
    assert_eq!(history.decide(&vec![edit("a")], 1, false), RefactorAction::OpenFiles);
    assert_eq!(history.decide(&vec![], 0, false), RefactorAction::NothingToDo);
    assert_eq!(history.decide(&vec![edit("a")], 0, false), RefactorAction::DropInvalid);
}

#[test]
fn an_applied_refactor_becomes_the_last_compiling_code_at_the_next_odd_revision() {
    let mut state = AnalysisState::new();
    let b = buffer();
    let other = Buffer { editor_id: Id::new(3), buffer_id: 5 };
    state.set_last_compiling(b, 2, "x = 1".to_string());
    state.set_last_compiling(other, 6, "y = 2".to_string());
    let action = state.idle_step(vec![edit("z")], Vec::new(), true);
    let edits = match action {
        IdleAction::ApplyEdits(edits) => edits,
        _ => panic!("expected edits to apply"),
    };
    state.edits_applied(edits, vec![(b, "z = 1".to_string())], 4);
    assert_eq!(state.last_compiling_version(b), Some((5, &"z = 1".to_string())));
    assert_eq!(state.last_compiling_version(other), Some((6, &"y = 2".to_string())));
    // Redoing the same refactor right after is dropped, and forgets the history.
    assert!(matches!(state.idle_step(vec![edit("z")], Vec::new(), true), IdleAction::Nothing));
    assert!(matches!(state.idle_step(vec![edit("z")], Vec::new(), true), IdleAction::ApplyEdits(_)));
}

#[test]
fn a_refactor_needing_files_asks_for_them_and_an_invalid_one_is_dropped() {
    let mut state = AnalysisState::new();
    match state.idle_step(vec![edit("z")], vec!["A.elm".to_string()], true) {
        IdleAction::OpenFiles(files) => assert_eq!(files, vec!["A.elm".to_string()]),
        _ => panic!("expected files to open"),
    }
    assert!(matches!(state.idle_step(vec![edit("z")], Vec::new(), false), IdleAction::Nothing));
    assert!(matches!(state.idle_step(Vec::new(), Vec::new(), true), IdleAction::Nothing));
}
