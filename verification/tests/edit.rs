use scad_editor_core::edit::{
    apply_edit, begin_edit, checkpoint_document, finish_edit, redo_document, restore_document,
    restore_to_checkpoint, undo_document, validate, validate_edit, ApplyError, EditStep,
    EditValidation, EditorEvent, EditorState, PendingEdit, ValidationError,
};
use scad_editor_core::history::HistoryError;
use scad_editor_core::types::EditorCheckpoint;
use scad_editor_core::history::EditorHistory;
use scad_editor_core::types::{ChangeType, Diagnostic, DiagnosticSeverity};

fn state_with(code: &str, errors: usize) -> EditorState {
    let mut state = EditorState::default();
    state.current_code = code.to_string();
    state.diagnostics = errors_of(errors);
    state
}

fn errors_of(n: usize) -> Vec<Diagnostic> {
    let mut v = Vec::new();
    for i in 0..n {
        v.push(Diagnostic {
            severity: DiagnosticSeverity::Error,
            line: Some(i as i32),
            col: None,
            message: format!("ERROR: {}", i),
        });
    }
    v.push(Diagnostic {
        severity: DiagnosticSeverity::Warning,
        line: None,
        col: None,
        message: "WARNING: w".to_string(),
    });
    v
}

fn lines(n: usize) -> String {
    let mut s = String::new();
    for i in 0..n {
        s.push_str(&format!("l{};\n", i));
    }
    s
}

#[test]
fn default_state() {
    let state = EditorState::default();
    assert_eq!(state.current_code, "// Type your OpenSCAD code here\ncube([10, 10, 10]);");
    assert!(state.diagnostics.is_empty());
    assert_eq!(state.last_preview_path, "");
    assert_eq!(state.openscad_path, "openscad");
    assert_eq!(state.working_dir, None);
}

#[test]
fn validate_accepts_a_unique_match() {
    let r = validate("cube([10,10,10]);", "10,10,10", "20,20,20");
    assert_eq!(r, EditValidation { ok: true, error: None, lines_changed: 1 });
}

#[test]
fn validate_reports_absent_text() {
    let r = validate("cube([10,10,10]);", "sphere", "cube");
    assert_eq!(
        r,
        EditValidation { ok: false, error: Some(ValidationError::NotFound), lines_changed: 0 }
    );
}

#[test]
fn validate_reports_the_number_of_matches() {
    let r = validate("cube([1,1,1]); cube([2,2,2]); cube();", "cube", "spher");
    assert_eq!(
        r,
        EditValidation {
            ok: false,
            error: Some(ValidationError::NotUnique { occurrences: 3 }),
            lines_changed: 0,
        }
    );
}

#[test]
fn validate_size_ceiling_is_inclusive() {
    let old_120 = lines(120);
    let text = format!("start();\n{}end();\n", old_120);
    let r = validate(&text, &old_120, "x");
    assert_eq!(r, EditValidation { ok: true, error: None, lines_changed: 120 });

    let old_121 = lines(121);
    let text = format!("start();\n{}end();\n", old_121);
    let r = validate(&text, &old_121, "x");
    assert_eq!(
        r,
        EditValidation {
            ok: false,
            error: Some(ValidationError::TooLarge { lines_changed: 121 }),
            lines_changed: 121,
        }
    );
}

#[test]
fn validate_counts_the_longer_side() {
    let new_121 = lines(121);
    let r = validate("a b c", "b", &new_121);
    assert_eq!(r.error, Some(ValidationError::TooLarge { lines_changed: 121 }));
    let r = validate("a b c", "b", "x\ny\nz");
    assert_eq!(r, EditValidation { ok: true, error: None, lines_changed: 3 });
    let r = validate("a b c", "b", "");
    assert_eq!(r, EditValidation { ok: true, error: None, lines_changed: 1 });
}

#[test]
fn validate_edit_reads_the_document() {
    let state = state_with("cube([10,10,10]);", 0);
    let r = validate_edit("10,10,10", "20,20,20", &state);
    assert!(r.ok);
    assert_eq!(state.current_code, "cube([10,10,10]);");
    let again = validate_edit("10,10,10", "20,20,20", &state);
    assert_eq!(r, again);
}

#[test]
fn apply_commits_a_clean_edit() {
    let mut state = state_with("cube([10,10,10]);", 0);
    state.diagnostics = Vec::new();
    let mut history = EditorHistory::new();
    let (result, events) =
        apply_edit(&mut state, &mut history, "10,10,10", "20,20,20", |_code| Ok(Vec::new()));
    assert!(result.success);
    assert!(result.error.is_none());
    assert_eq!(state.current_code, "cube([20,20,20]);");
    let id = result.checkpoint_id.unwrap();
    let all = history.get_all();
    assert_eq!(all.len(), 1);
    assert_eq!(all[0].id, id);
    assert_eq!(all[0].code, "cube([10,10,10]);");
    assert_eq!(all[0].description, "Before AI edit");
    assert_eq!(all[0].change_type, ChangeType::Ai);
    assert_eq!(events.len(), 2);
    assert!(matches!(&events[0], EditorEvent::CodeUpdated(code) if code == "cube([20,20,20]);"));
    assert!(matches!(&events[1], EditorEvent::RenderRequested));
}

#[test]
fn apply_hands_the_candidate_to_the_verifier() {
    let mut state = state_with("a(); b(); c();", 0);
    let mut history = EditorHistory::new();
    let mut seen = String::new();
    let (result, _) = apply_edit(&mut state, &mut history, "b()", "bb(1)", |code| {
        seen = code;
        Ok(Vec::new())
    });
    assert!(result.success);
    assert_eq!(seen, "a(); bb(1); c();");
    assert_eq!(state.current_code, "a(); bb(1); c();");
}

#[test]
fn apply_rejects_ambiguous_text() {
    let mut state = state_with("cube([1,1,1]); cube([2,2,2]);", 0);
    let mut history = EditorHistory::new();
    let (result, events) = apply_edit(&mut state, &mut history, "cube", "spher", |_code| {
        panic!("the verifier must not run")
    });
    assert!(!result.success);
    assert!(matches!(result.error, Some(ApplyError::NotUnique { occurrences: 2 })));
    assert_eq!(state.current_code, "cube([1,1,1]); cube([2,2,2]);");
    assert!(result.diagnostics.is_empty());
    assert!(result.checkpoint_id.is_none());
    assert!(events.is_empty());
    assert_eq!(history.get_all().len(), 1);
}

#[test]
fn apply_rejects_absent_text_every_time() {
    let mut state = state_with("cube([10,10,10]);", 1);
    let mut history = EditorHistory::new();
    for round in 1..4 {
        let (result, events) = apply_edit(&mut state, &mut history, "sphere", "cube", |_code| {
            panic!("the verifier must not run")
        });
        assert!(!result.success);
        assert!(matches!(result.error, Some(ApplyError::NotFound)));
        assert_eq!(state.current_code, "cube([10,10,10]);");
        assert_eq!(state.diagnostics.len(), 2);
        assert!(events.is_empty());
        assert_eq!(history.get_all().len(), round);
    }
}

#[test]
fn apply_rejects_a_regression() {
    let mut state = state_with("cube([10,10,10]);", 1);
    let mut history = EditorHistory::new();
    let (result, events) =
        apply_edit(&mut state, &mut history, "cube", "cub", |_code| Ok(errors_of(2)));
    assert!(!result.success);
    assert!(matches!(result.error, Some(ApplyError::RegressionRejected)));
    assert_eq!(result.diagnostics.len(), 3);
    assert_eq!(result.diagnostics[1].message, "ERROR: 1");
    assert!(result.checkpoint_id.is_none());
    assert_eq!(state.current_code, "cube([10,10,10]);");
    assert_eq!(state.diagnostics.len(), 2);
    assert!(events.is_empty());
    assert_eq!(history.get_all().len(), 1);
}

#[test]
fn apply_accepts_the_same_number_of_errors() {
    let mut state = state_with("cube([10,10,10]);", 1);
    let mut history = EditorHistory::new();
    let other = vec![Diagnostic {
        severity: DiagnosticSeverity::Error,
        line: Some(9),
        col: None,
        message: "ERROR: another".to_string(),
    }];
    let (result, _) = apply_edit(&mut state, &mut history, "cube", "cone", |_code| Ok(other));
    assert!(result.success);
    assert_eq!(state.current_code, "cone([10,10,10]);");
    assert_eq!(state.diagnostics.len(), 1);
    assert_eq!(state.diagnostics[0].message, "ERROR: another");
    assert_eq!(result.diagnostics.len(), 1);
}

#[test]
fn apply_reports_a_verifier_that_cannot_run() {
    let mut state = state_with("cube([10,10,10]);", 0);
    let mut history = EditorHistory::new();
    let (result, events) = apply_edit(&mut state, &mut history, "cube", "cone", |_code| {
        Err("Failed to run OpenSCAD: not found".to_string())
    });
    assert!(!result.success);
    assert!(matches!(
        &result.error,
        Some(ApplyError::VerificationFailure { reason }) if reason == "Failed to run OpenSCAD: not found"
    ));
    assert!(result.diagnostics.is_empty());
    assert_eq!(state.current_code, "cube([10,10,10]);");
    assert!(events.is_empty());
}

#[test]
fn begin_edit_replaces_the_single_match() {
    let state = state_with("aXbXXc", 2);
    let mut history = EditorHistory::new();
    match begin_edit(&state, &mut history, "XX", "--") {
        EditStep::Verify(p) => {
            assert_eq!(p.candidate, "aXb--c");
            assert_eq!(p.old_error_count, 2);
            assert_eq!(history.get_all()[0].id, p.checkpoint_id);
        }
        EditStep::Rejected(_) => panic!("the edit is valid"),
    }
    match begin_edit(&state, &mut history, "X", "-") {
        EditStep::Rejected(r) => {
            assert!(matches!(r.error, Some(ApplyError::NotUnique { occurrences: 3 })))
        }
        EditStep::Verify(_) => panic!("the edit is ambiguous"),
    }
    assert_eq!(history.get_all().len(), 2);
}

#[test]
fn begin_edit_with_new_text_at_either_end() {
    let state = state_with("abc", 0);
    let mut history = EditorHistory::new();
    match begin_edit(&state, &mut history, "a", "") {
        EditStep::Verify(p) => assert_eq!(p.candidate, "bc"),
        EditStep::Rejected(_) => panic!(),
    }
    match begin_edit(&state, &mut history, "c", "cd\n") {
        EditStep::Verify(p) => assert_eq!(p.candidate, "abcd\n"),
        EditStep::Rejected(_) => panic!(),
    }
    match begin_edit(&state, &mut history, "abc", "x") {
        EditStep::Verify(p) => assert_eq!(p.candidate, "x"),
        EditStep::Rejected(_) => panic!(),
    }
}

#[test]
fn finish_edit_commits_or_leaves_alone() {
    let mut state = state_with("old", 1);
    state.working_dir = Some("/work".to_string());
    let pending = PendingEdit {
        candidate: "new".to_string(),
        old_error_count: 1,
        checkpoint_id: "cp-1".to_string(),
    };
    let (result, events) = finish_edit(&mut state, pending, Ok(errors_of(1)));
    assert!(result.success);
    assert_eq!(result.checkpoint_id, Some("cp-1".to_string()));
    assert_eq!(state.current_code, "new");
    assert_eq!(state.working_dir, Some("/work".to_string()));
    assert_eq!(events.len(), 2);

    let pending = PendingEdit {
        candidate: "newer".to_string(),
        old_error_count: 1,
        checkpoint_id: "cp-2".to_string(),
    };
    let (result, events) = finish_edit(&mut state, pending, Ok(errors_of(2)));
    assert!(!result.success);
    assert_eq!(state.current_code, "new");
    assert!(events.is_empty());
}

#[test]
fn history_moves_show_in_the_document() {
    let mut state = state_with("v1", 1);
    state.openscad_path = "/bin/tool".to_string();
    let mut history = EditorHistory::new();
    assert_eq!(undo_document(&mut state, &mut history).unwrap_err(), HistoryError::NoHistory);
    assert_eq!(redo_document(&mut state, &mut history).unwrap_err(), HistoryError::NoFuture);
    let first = checkpoint_document(
        &state,
        &mut history,
        "v1".to_string(),
        "one".to_string(),
        ChangeType::User,
    );
    state.current_code = "v2".to_string();
    state.diagnostics = Vec::new();
    checkpoint_document(&state, &mut history, "v2".to_string(), "two".to_string(), ChangeType::User);
    assert_eq!(history.get_all()[0].diagnostics.len(), 2);

    let (checkpoint, event) = undo_document(&mut state, &mut history).unwrap();
    assert_eq!(checkpoint.code, "v1");
    assert_eq!(state.current_code, "v1");
    assert_eq!(state.diagnostics.len(), 2);
    assert_eq!(state.openscad_path, "/bin/tool");
    assert!(matches!(event, EditorEvent::HistoryRestored(c) if c.id == first && c.code == "v1"));
    assert_eq!(undo_document(&mut state, &mut history).unwrap_err(), HistoryError::NoHistory);
    assert_eq!(state.current_code, "v1");

    let (checkpoint, _) = redo_document(&mut state, &mut history).unwrap();
    assert_eq!(checkpoint.code, "v2");
    assert_eq!(state.current_code, "v2");
    assert!(state.diagnostics.is_empty());

    let (checkpoint, _) = restore_to_checkpoint(&mut state, &mut history, &first).unwrap();
    assert_eq!(checkpoint.id, first);
    assert_eq!(state.current_code, "v1");
    assert_eq!(
        restore_to_checkpoint(&mut state, &mut history, "nowhere").unwrap_err(),
        HistoryError::NotFound
    );
    assert_eq!(state.current_code, "v1");
}

#[test]
fn restore_document_copies_text_and_diagnostics() {
    let mut state = state_with("old", 0);
    let checkpoint = EditorCheckpoint {
        id: "c".to_string(),
        timestamp: 5,
        code: "restored".to_string(),
        diagnostics: errors_of(3),
        description: "d".to_string(),
        change_type: ChangeType::FileLoad,
    };
    let event = restore_document(&mut state, &checkpoint);
    assert_eq!(state.current_code, "restored");
    assert_eq!(state.diagnostics.len(), 4);
    assert!(matches!(event, EditorEvent::HistoryRestored(c) if c.timestamp == 5 && c.description == "d"));
}

#[test]
fn single_matches_are_replaced_as_std_does() {
    let cases = [
        ("cube([10,10,10]);", "10,10,10", "20,20,20"),
        ("ababa", "bab", "-"),
        ("", "", "x"),
        ("héllo wörld", "lo w", "LO W"),
        ("a\nb\nc\n", "b\n", ""),
        ("abc", "abc", ""),
    ];
    for (text, old, new) in cases {
        assert_eq!(text.matches(old).count(), 1, "{:?}", text);
        let state = state_with(text, 0);
        let mut history = EditorHistory::new();
        match begin_edit(&state, &mut history, old, new) {
            EditStep::Verify(p) => assert_eq!(p.candidate, text.replace(old, new), "{:?}", text),
            EditStep::Rejected(_) => panic!("{:?} has a single match", text),
        }
        assert!(validate(text, old, new).ok);
    }
}

#[test]
fn empty_old_text_matches_at_every_boundary() {
    let r = validate("abc", "", "x");
    assert_eq!(r.error, Some(ValidationError::NotUnique { occurrences: 4 }));
    let r = validate("", "", "x");
    assert_eq!(r, EditValidation { ok: true, error: None, lines_changed: 1 });
    let r = validate("", "a", "x");
    assert_eq!(r.error, Some(ValidationError::NotFound));
}

#[test]
fn overlapping_occurrences_are_counted_each() {
    let r = validate("aaa", "aa", "b");
    assert_eq!(
        r,
        EditValidation {
            ok: false,
            error: Some(ValidationError::NotUnique { occurrences: 2 }),
            lines_changed: 0,
        }
    );
    let r = validate("aaaa", "aa", "b");
    assert_eq!(r.error, Some(ValidationError::NotUnique { occurrences: 3 }));
    let r = validate("ababab", "aba", "x");
    assert_eq!(r.error, Some(ValidationError::NotUnique { occurrences: 2 }));

    let mut state = state_with("aaa", 0);
    let mut history = EditorHistory::new();
    let (result, events) = apply_edit(&mut state, &mut history, "aa", "b", |_code| {
        panic!("the verifier must not run")
    });
    assert!(!result.success);
    assert!(matches!(result.error, Some(ApplyError::NotUnique { occurrences: 2 })));
    assert!(result.diagnostics.is_empty());
    assert_eq!(state.current_code, "aaa");
    assert!(events.is_empty());
}
