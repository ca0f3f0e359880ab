use scad_editor_core::edit::{ApplyEditResult, ApplyError, EditorState, ValidationError};
use scad_editor_core::report::{
    code_report, diagnostics_report, edit_report, edit_request, preview_path_report,
    preview_report, render_triggered_report, screenshot_step, ScreenshotStep, Tool,
};
use scad_editor_core::types::{Diagnostic, DiagnosticSeverity};

fn diag(severity: DiagnosticSeverity, line: Option<i32>, col: Option<i32>, message: &str) -> Diagnostic {
    Diagnostic { severity, line, col, message: message.to_string() }
}

#[test]
fn tools_by_name() {
    assert_eq!(Tool::from_name("get_current_code"), Ok(Tool::GetCurrentCode));
    assert_eq!(Tool::from_name("get_preview_screenshot"), Ok(Tool::GetPreviewScreenshot));
    assert_eq!(Tool::from_name("apply_edit"), Ok(Tool::ApplyEdit));
    assert_eq!(Tool::from_name("get_diagnostics"), Ok(Tool::GetDiagnostics));
    assert_eq!(Tool::from_name("trigger_render"), Ok(Tool::TriggerRender));
    assert_eq!(Tool::from_name("rm"), Err("Unknown tool: rm".to_string()));
}

#[test]
fn edit_request_names_the_first_missing_argument() {
    let s = |t: &str| Some(t.to_string());
    let ok = edit_request(s("a"), s("b"), s("c")).unwrap();
    assert_eq!(ok.old_string, "a");
    assert_eq!(ok.new_string, "b");
    assert_eq!(ok.rationale, "c");
    assert_eq!(edit_request(None, None, None).unwrap_err(), "Missing old_string");
    assert_eq!(edit_request(s("a"), None, None).unwrap_err(), "Missing new_string");
    assert_eq!(edit_request(s("a"), s("b"), None).unwrap_err(), "Missing rationale");
    assert_eq!(edit_request(None, s("b"), s("c")).unwrap_err(), "Missing old_string");
}

#[test]
fn code_and_preview_reports() {
    assert_eq!(code_report(String::new()), "// Empty file");
    assert_eq!(code_report("cube();".to_string()), "cube();");
    let mut state = EditorState::default();
    assert_eq!(preview_path_report(&state), "No preview available yet. Trigger a render first.");
    state.last_preview_path = "/tmp/p.png".to_string();
    assert_eq!(preview_path_report(&state), "/tmp/p.png");
    assert_eq!(
        preview_report("/tmp/p.png"),
        "Preview image saved at: /tmp/p.png\n\nThis shows the current rendered output of the OpenSCAD code."
    );
    assert_eq!(
        render_triggered_report(),
        "✅ Render triggered. Check the preview pane for the updated output."
    );
}

#[test]
fn diagnostics_report_lists_each_diagnostic() {
    assert_eq!(
        diagnostics_report(&Vec::new()),
        "✅ No errors or warnings. The code compiles successfully."
    );
    let v = vec![
        diag(DiagnosticSeverity::Error, Some(12), None, "ERROR: bad, line 12"),
        diag(DiagnosticSeverity::Warning, None, None, "WARNING: hm"),
        diag(DiagnosticSeverity::Info, Some(3), Some(7), "ECHO: x"),
        diag(DiagnosticSeverity::Error, Some(-1), Some(0), "m"),
    ];
    assert_eq!(
        diagnostics_report(&v),
        "Current diagnostics:\n\n[Error] (line 12): ERROR: bad, line 12\n[Warning]: WARNING: hm\n[Info] (line 3, col 7): ECHO: x\n[Error] (line -1, col 0): m"
    );
}

#[test]
fn edit_report_of_a_commit() {
    let result = ApplyEditResult {
        success: true,
        error: None,
        diagnostics: Vec::new(),
        checkpoint_id: Some("abc-123".to_string()),
    };
    assert_eq!(
        edit_report(&result, "make it bigger"),
        "✅ Edit applied successfully!\n✅ Code compiles without new errors\n✅ Preview has been updated automatically\n\nRationale: make it bigger\n\nThe changes are now live in the editor.\n\n[CHECKPOINT:abc-123]"
    );
    let plain = ApplyEditResult { success: true, error: None, diagnostics: Vec::new(), checkpoint_id: None };
    assert!(edit_report(&plain, "r").ends_with("The changes are now live in the editor."));
}

#[test]
fn edit_report_of_a_rejection() {
    let result = ApplyEditResult {
        success: false,
        error: Some(ApplyError::RegressionRejected),
        diagnostics: vec![
            diag(DiagnosticSeverity::Error, Some(2), None, "ERROR: x, line 2"),
            diag(DiagnosticSeverity::Warning, None, None, "WARNING: y"),
        ],
        checkpoint_id: None,
    };
    assert_eq!(
        edit_report(&result, "why"),
        "❌ Failed to apply edit: New compilation errors introduced\n\nCompilation errors after applying edit:\n  [Error] (line 2): ERROR: x, line 2\n  [Warning]: WARNING: y\n\nRationale: why\n\nThe edit was rolled back. No changes were made. Please fix the errors and try again."
    );
    let bare = ApplyEditResult { success: false, error: None, diagnostics: Vec::new(), checkpoint_id: None };
    assert_eq!(
        edit_report(&bare, "why"),
        "❌ Failed to apply edit: Unknown error\n\nRationale: why\n\nThe edit was rolled back. No changes were made. Please fix the errors and try again."
    );
}

#[test]
fn error_messages() {
    assert_eq!(
        ValidationError::NotFound.message(),
        "The old_string was not found in the current code. Make sure you copy the exact text including whitespace."
    );
    assert_eq!(
        ValidationError::NotUnique { occurrences: 12 }.message(),
        "The old_string appears 12 times in the code. It must be unique. Include more surrounding context to make it unique."
    );
    assert_eq!(
        ValidationError::TooLarge { lines_changed: 121 }.message(),
        "Edit too large: 121 lines changed (max 120). Please break into smaller changes."
    );
    assert_eq!(ApplyError::NotFound.message(), "The old_string was not found in the current code.");
    assert_eq!(
        ApplyError::NotUnique { occurrences: 2 }.message(),
        "The old_string appears 2 times. It must be unique."
    );
    assert_eq!(
        ApplyError::VerificationFailure { reason: "no tool".to_string() }.message(),
        "Test compilation failed: no tool"
    );
    assert_eq!(ApplyError::RegressionRejected.message(), "New compilation errors introduced");
}

#[test]
fn screenshot_steps() {
    let mut state = EditorState::default();
    assert!(matches!(
        screenshot_step(&state, None),
        Ok(ScreenshotStep::Existing(text)) if text == "No preview available yet. Trigger a render first."
    ));
    state.last_preview_path = "/p.png".to_string();
    assert!(matches!(
        screenshot_step(&state, None),
        Ok(ScreenshotStep::Existing(text)) if text == "/p.png"
    ));
    state.current_code = "sphere(1);".to_string();
    match screenshot_step(&state, Some("back-left")) {
        Ok(ScreenshotStep::Render { view, code }) => {
            assert_eq!(view.to_camera_args()[0], "--camera=0,0,0,55,0,135");
            assert_eq!(code, "sphere(1);");
        }
        _ => panic!("a known view of a document with code is rendered"),
    }
    assert_eq!(
        screenshot_step(&state, Some("inside")).unwrap_err(),
        "Unknown camera view: inside"
    );
    state.current_code = String::new();
    assert_eq!(
        screenshot_step(&state, Some("top")).unwrap_err(),
        "No code to render. Add some OpenSCAD code first."
    );
    assert_eq!(
        screenshot_step(&state, Some("inside")).unwrap_err(),
        "Unknown camera view: inside"
    );
}
