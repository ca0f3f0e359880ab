use scad_editor_core::diff::{summarize, DiffLine, DiffTag};
use scad_editor_core::history::{EditorHistory, HistoryError, MAX_CHECKPOINTS};
use scad_editor_core::types::{ChangeType, Diagnostic, DiagnosticSeverity, EditorCheckpoint};

fn push(history: &mut EditorHistory, code: &str) -> String {
    history.create_checkpoint(code.to_string(), Vec::new(), format!("edit {}", code), ChangeType::User)
}

fn checkpoint(id: &str, code: &str) -> EditorCheckpoint {
    EditorCheckpoint {
        id: id.to_string(),
        timestamp: 1,
        code: code.to_string(),
        diagnostics: Vec::new(),
        description: String::new(),
        change_type: ChangeType::User,
    }
}

#[test]
fn new_history_is_empty() {
    let mut history = EditorHistory::new();
    assert!(history.get_all().is_empty());
    assert!(history.get_current().is_none());
    assert!(!history.can_undo());
    assert!(!history.can_redo());
    assert_eq!(history.undo().unwrap_err(), HistoryError::NoHistory);
    assert_eq!(history.redo().unwrap_err(), HistoryError::NoFuture);
}

#[test]
fn create_checkpoint_keeps_what_it_is_given() {
    let mut history = EditorHistory::new();
    let diagnostics = vec![Diagnostic {
        severity: DiagnosticSeverity::Warning,
        line: Some(2),
        col: None,
        message: "WARNING: w".to_string(),
    }];
    let id = history.create_checkpoint(
        "cube();".to_string(),
        diagnostics,
        "Loaded".to_string(),
        ChangeType::FileLoad,
    );
    let current = history.get_current().unwrap();
    assert_eq!(current.id, id);
    assert_eq!(current.code, "cube();");
    assert_eq!(current.description, "Loaded");
    assert_eq!(current.change_type, ChangeType::FileLoad);
    assert_eq!(current.diagnostics.len(), 1);
    assert_eq!(current.diagnostics[0].line, Some(2));
    assert!(!id.is_empty());
    let other = push(&mut history, "b");
    assert_ne!(id, other);
}

#[test]
fn undo_needs_two_checkpoints() {
    let mut history = EditorHistory::new();
    push(&mut history, "a");
    assert!(!history.can_undo());
    assert_eq!(history.undo().unwrap_err(), HistoryError::NoHistory);
    push(&mut history, "b");
    assert!(history.can_undo());
    assert_eq!(history.undo().unwrap().code, "a");
    assert!(!history.can_undo());
    assert_eq!(history.undo().unwrap_err(), HistoryError::NoHistory);
    assert_eq!(history.get_current().unwrap().code, "a");
}

#[test]
fn undo_and_redo_walk_the_history() {
    let mut history = EditorHistory::new();
    push(&mut history, "a");
    push(&mut history, "b");
    push(&mut history, "c");
    assert_eq!(history.undo().unwrap().code, "b");
    assert_eq!(history.undo().unwrap().code, "a");
    assert!(history.can_redo());
    assert_eq!(history.redo().unwrap().code, "b");
    assert_eq!(history.redo().unwrap().code, "c");
    assert_eq!(history.get_current().unwrap().code, "c");
    assert!(history.can_redo());
    assert_eq!(history.redo().unwrap().code, "c");
    assert!(!history.can_redo());
    assert_eq!(history.redo().unwrap_err(), HistoryError::NoFuture);
    assert_eq!(history.get_all().len(), 3);
}

#[test]
fn new_checkpoint_after_undo_cuts_the_future() {
    let mut history = EditorHistory::new();
    push(&mut history, "a");
    push(&mut history, "b");
    push(&mut history, "c");
    history.undo().unwrap();
    history.undo().unwrap();
    push(&mut history, "x");
    assert_eq!(history.redo().unwrap_err(), HistoryError::NoFuture);
    let codes: Vec<String> = history.get_all().into_iter().map(|c| c.code).collect();
    assert_eq!(codes, vec!["a".to_string(), "x".to_string()]);
    assert_eq!(history.get_current().unwrap().code, "x");
}

#[test]
fn capacity_evicts_the_oldest() {
    let mut history = EditorHistory::new();
    for i in 0..(MAX_CHECKPOINTS + 5) {
        push(&mut history, &format!("{}", i));
    }
    let all = history.get_all();
    assert_eq!(MAX_CHECKPOINTS, 50);
    assert_eq!(all.len(), 50);
    assert_eq!(all[0].code, "5");
    assert_eq!(all[49].code, "54");
}

#[test]
fn restore_to_seeks_by_id() {
    let mut history = EditorHistory::new();
    let a = push(&mut history, "a");
    let b = push(&mut history, "b");
    push(&mut history, "c");
    assert_eq!(history.restore_to(&a).unwrap().code, "a");
    assert_eq!(history.get_current().unwrap().code, "a");
    assert_eq!(history.redo().unwrap().code, "b");
    assert_eq!(history.restore_to(&b).unwrap().id, b);
    assert_eq!(history.restore_to("no-such-id").unwrap_err(), HistoryError::NotFound);
    assert_eq!(history.get_current().unwrap().code, "b");
    assert_eq!(history.get_by_id(&a).unwrap().code, "a");
    assert!(history.get_by_id("no-such-id").is_none());
}

#[test]
fn record_files_a_given_checkpoint() {
    let mut history = EditorHistory::new();
    history.record(checkpoint("one", "a"));
    history.record(checkpoint("two", "b"));
    history.record(checkpoint("one", "c"));
    assert_eq!(history.get_by_id("one").unwrap().code, "a");
    assert_eq!(history.restore_to("two").unwrap().code, "b");
    history.record(checkpoint("three", "d"));
    let ids: Vec<String> = history.get_all().into_iter().map(|c| c.id).collect();
    assert_eq!(ids, vec!["one".to_string(), "two".to_string(), "three".to_string()]);
}

#[test]
fn clear_forgets_everything() {
    let mut history = EditorHistory::new();
    push(&mut history, "a");
    push(&mut history, "b");
    history.undo().unwrap();
    history.clear();
    assert!(history.get_all().is_empty());
    assert!(!history.can_redo());
    assert!(!history.can_undo());
}

#[test]
fn diff_between_checkpoints() {
    let mut history = EditorHistory::new();
    history.record(checkpoint("from", "a\nb\nc\n"));
    history.record(checkpoint("to", "a\nx\nc\nd\n"));
    let diff = history.get_diff("from", "to").unwrap();
    assert_eq!(diff.from_id, "from");
    assert_eq!(diff.to_id, "to");
    assert_eq!(diff.diff, " a\n-b\n+x\n c\n+d\n");
    assert_eq!(diff.added_lines, 2);
    assert_eq!(diff.removed_lines, 1);
    let back = history.get_diff("to", "from").unwrap();
    assert_eq!(back.added_lines, 1);
    assert_eq!(back.removed_lines, 2);
    let same = history.get_diff("from", "from").unwrap();
    assert_eq!(same.diff, " a\n b\n c\n");
    assert_eq!(same.added_lines, 0);
    assert_eq!(same.removed_lines, 0);
}

#[test]
fn diff_ends_every_line() {
    let mut history = EditorHistory::new();
    history.record(checkpoint("from", "cube();"));
    history.record(checkpoint("to", "sphere();"));
    let diff = history.get_diff("from", "to").unwrap();
    assert_eq!(diff.diff, "-cube();\n+sphere();\n");
    assert_eq!(diff.added_lines, 1);
    assert_eq!(diff.removed_lines, 1);
}

#[test]
fn diff_of_unknown_checkpoint_fails() {
    let mut history = EditorHistory::new();
    history.record(checkpoint("from", "a"));
    assert_eq!(history.get_diff("from", "nowhere").unwrap_err(), HistoryError::NotFound);
    assert_eq!(history.get_diff("nowhere", "from").unwrap_err(), HistoryError::NotFound);
}

#[test]
fn summarize_marks_and_counts() {
    let lines = vec![
        DiffLine { tag: DiffTag::Equal, text: "a\n".to_string() },
        DiffLine { tag: DiffTag::Delete, text: "b\n".to_string() },
        DiffLine { tag: DiffTag::Delete, text: "c\n".to_string() },
        DiffLine { tag: DiffTag::Insert, text: "d\n".to_string() },
    ];
    let summary = summarize(&lines);
    assert_eq!(summary.diff, " a\n-b\n-c\n+d\n");
    assert_eq!(summary.added_lines, 1);
    assert_eq!(summary.removed_lines, 2);
    let empty = summarize(&Vec::new());
    assert_eq!(empty.diff, "");
    assert_eq!(empty.added_lines, 0);
}
