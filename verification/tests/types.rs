use scad_editor_core::types::{
    clone_diagnostics, count_errors, CameraView, ChangeType, Diagnostic, DiagnosticSeverity,
    EditorCheckpoint,
};

fn diag(severity: DiagnosticSeverity, message: &str) -> Diagnostic {
    Diagnostic { severity, line: Some(3), col: None, message: message.to_string() }
}

#[test]
fn only_error_is_an_error() {
    assert!(DiagnosticSeverity::Error.is_error());
    assert!(!DiagnosticSeverity::Warning.is_error());
    assert!(!DiagnosticSeverity::Info.is_error());
}

#[test]
fn count_errors_counts_errors_only() {
    let v = vec![
        diag(DiagnosticSeverity::Error, "a"),
        diag(DiagnosticSeverity::Warning, "b"),
        diag(DiagnosticSeverity::Error, "c"),
        diag(DiagnosticSeverity::Info, "d"),
    ];
    assert_eq!(count_errors(&v), 2);
    assert_eq!(count_errors(&Vec::new()), 0);
}

#[test]
fn clones_say_the_same() {
    let v = vec![diag(DiagnosticSeverity::Error, "a"), diag(DiagnosticSeverity::Info, "b")];
    let w = clone_diagnostics(&v);
    assert_eq!(w.len(), 2);
    assert_eq!(w[0].message, "a");
    assert_eq!(w[0].severity, DiagnosticSeverity::Error);
    assert_eq!(w[1].message, "b");
    assert_eq!(w[1].line, Some(3));
    let c = EditorCheckpoint {
        id: "id".to_string(),
        timestamp: 7,
        code: "cube();".to_string(),
        diagnostics: v,
        description: "d".to_string(),
        change_type: ChangeType::FileLoad,
    };
    let d = c.clone();
    assert_eq!(d.id, "id");
    assert_eq!(d.timestamp, 7);
    assert_eq!(d.code, "cube();");
    assert_eq!(d.diagnostics.len(), 2);
    assert_eq!(d.description, "d");
    assert_eq!(d.change_type, ChangeType::FileLoad);
}

#[test]
fn camera_args_of_each_view() {
    let cases = [
        (CameraView::Front, "0,0,0"),
        (CameraView::Back, "0,0,180"),
        (CameraView::Left, "0,0,90"),
        (CameraView::Right, "0,0,270"),
        (CameraView::Top, "90,0,0"),
        (CameraView::Bottom, "-90,0,0"),
        (CameraView::FrontLeft, "55,0,45"),
        (CameraView::FrontRight, "55,0,315"),
        (CameraView::BackLeft, "55,0,135"),
        (CameraView::BackRight, "55,0,225"),
    ];
    for (view, rotation) in cases {
        assert_eq!(
            view.to_camera_args(),
            vec![format!("--camera=0,0,0,{}", rotation), "--viewall".to_string(), "--autocenter".to_string()]
        );
    }
}

#[test]
fn camera_view_from_its_name() {
    let names = [
        "front", "back", "left", "right", "top", "bottom", "front-left", "front-right",
        "back-left", "back-right",
    ];
    let rotations = [
        "0,0,0", "0,0,180", "0,0,90", "0,0,270", "90,0,0", "-90,0,0", "55,0,45", "55,0,315",
        "55,0,135", "55,0,225",
    ];
    for (name, rotation) in names.iter().zip(rotations.iter()) {
        let view = CameraView::from_str(name).unwrap();
        assert_eq!(view.to_camera_args()[0], format!("--camera=0,0,0,{}", rotation));
    }
    assert_eq!(CameraView::from_str("Front").unwrap_err(), "Unknown camera view: Front");
    assert_eq!(CameraView::from_str("").unwrap_err(), "Unknown camera view: ");
}
