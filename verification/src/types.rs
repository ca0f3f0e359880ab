//! The data that crosses the library's boundary: diagnostics, render
//! requests and responses, checkpoints and model descriptions.

use vstd::prelude::*;
use vstd::string::*;
use crate::text::str_eq;

verus! {

#[derive(Debug, PartialEq, Eq)]
pub enum DiagnosticSeverity {
    Error,
    Warning,
    Info,
}

impl Clone for DiagnosticSeverity {
    fn clone(&self) -> (r: Self)
        ensures
            r == *self,
    {
        match self {
            DiagnosticSeverity::Error => DiagnosticSeverity::Error,
            DiagnosticSeverity::Warning => DiagnosticSeverity::Warning,
            DiagnosticSeverity::Info => DiagnosticSeverity::Info,
        }
    }
}

impl DiagnosticSeverity {
    pub fn is_error(&self) -> (r: bool)
        ensures
            r == (*self == DiagnosticSeverity::Error),
    {
        matches!(self, DiagnosticSeverity::Error)
    }
}

#[derive(Debug)]
pub struct Diagnostic {
    pub severity: DiagnosticSeverity,
    pub line: Option<i32>,
    pub col: Option<i32>,
    pub message: String,
}

/// What a diagnostic says, with its message as a sequence of characters.
pub ghost struct DiagnosticView {
    pub severity: DiagnosticSeverity,
    pub line: Option<i32>,
    pub col: Option<i32>,
    pub message: Seq<char>,
}

impl View for Diagnostic {
    type V = DiagnosticView;

    open spec fn view(&self) -> DiagnosticView {
        DiagnosticView {
            severity: self.severity,
            line: self.line,
            col: self.col,
            message: self.message@,
        }
    }
}

/// The views of a list of diagnostics, in order.
pub open spec fn diagnostic_views(diagnostics: Seq<Diagnostic>) -> Seq<DiagnosticView> {
    diagnostics.map_values(|d: Diagnostic| d@)
}

impl Clone for Diagnostic {
    fn clone(&self) -> (r: Self)
        ensures
            r@ == self@,
    {
        Diagnostic {
            severity: self.severity.clone(),
            line: self.line,
            col: self.col,
            message: self.message.clone(),
        }
    }
}

/// Number of diagnostics of severity `Error` in `diagnostics`.
pub open spec fn error_count(diagnostics: Seq<DiagnosticView>) -> nat
    decreases diagnostics.len(),
{
    if diagnostics.len() == 0 {
        0
    } else {
        error_count(diagnostics.drop_last()) + if diagnostics.last().severity
            == DiagnosticSeverity::Error {
            1nat
        } else {
            0nat
        }
    }
}

/// Counts the diagnostics of severity `Error`.
pub fn count_errors(diagnostics: &Vec<Diagnostic>) -> (r: usize)
    ensures
        r == error_count(diagnostic_views(diagnostics@)),
{
    let ghost views = diagnostic_views(diagnostics@);
    let mut n: usize = 0;
    let mut i: usize = 0;
    while i < diagnostics.len()
        invariant
            views == diagnostic_views(diagnostics@),
            i <= diagnostics.len(),
            n <= i,
            n == error_count(views.subrange(0, i as int)),
        decreases diagnostics.len() - i,
    {
        assert(views.subrange(0, i + 1).drop_last() =~= views.subrange(0, i as int));
        assert(views.subrange(0, i + 1).last() == diagnostics@[i as int]@);
        if diagnostics[i].severity.is_error() {
            n += 1;
        }
        i += 1;
    }
    assert(views.subrange(0, diagnostics.len() as int) =~= views);
    n
}

/// A copy of a list of diagnostics that says the same, element by element.
pub fn clone_diagnostics(v: &Vec<Diagnostic>) -> (r: Vec<Diagnostic>)
    ensures
        diagnostic_views(r@) == diagnostic_views(v@),
{
    let mut out: Vec<Diagnostic> = Vec::new();
    let mut i: usize = 0;
    while i < v.len()
        invariant
            i <= v.len(),
            diagnostic_views(out@) == diagnostic_views(v@).subrange(0, i as int),
        decreases v.len() - i,
    {
        let ghost before = out@;
        let d = v[i].clone();
        out.push(d);
        i += 1;
        assert(diagnostic_views(out@) =~= diagnostic_views(before).push(d@));
        assert(diagnostic_views(out@) =~= diagnostic_views(v@).subrange(0, i as int));
    }
    assert(diagnostic_views(v@).subrange(0, v.len() as int) =~= diagnostic_views(v@));
    out
}

#[derive(Debug, Clone)]
pub enum BackendType {
    Manifold,
    Cgal,
    Auto,
}

#[derive(Debug, Clone)]
pub enum ViewMode {
    ThreeD,
    TwoD,
}

#[derive(Debug, Clone)]
pub enum RenderKind {
    Png,
    Svg,
    Mesh,
}

#[derive(Debug, Clone)]
pub enum CameraView {
    Front,
    Back,
    Left,
    Right,
    Top,
    Bottom,
    FrontLeft,
    FrontRight,
    BackLeft,
    BackRight,
}

impl CameraView {
    /// The camera rotation, as three comma-separated angles in degrees.
    pub open spec fn rotation(self) -> Seq<char> {
        match self {
            CameraView::Front => "0,0,0"@,
            CameraView::Back => "0,0,180"@,
            CameraView::Left => "0,0,90"@,
            CameraView::Right => "0,0,270"@,
            CameraView::Top => "90,0,0"@,
            CameraView::Bottom => "-90,0,0"@,
            CameraView::FrontLeft => "55,0,45"@,
            CameraView::FrontRight => "55,0,315"@,
            CameraView::BackLeft => "55,0,135"@,
            CameraView::BackRight => "55,0,225"@,
        }
    }

    /// The view with the given kebab-case name, if there is one.
    pub open spec fn named(name: Seq<char>) -> Option<CameraView> {
        if name == "front"@ {
            Some(CameraView::Front)
        } else if name == "back"@ {
            Some(CameraView::Back)
        } else if name == "left"@ {
            Some(CameraView::Left)
        } else if name == "right"@ {
            Some(CameraView::Right)
        } else if name == "top"@ {
            Some(CameraView::Top)
        } else if name == "bottom"@ {
            Some(CameraView::Bottom)
        } else if name == "front-left"@ {
            Some(CameraView::FrontLeft)
        } else if name == "front-right"@ {
            Some(CameraView::FrontRight)
        } else if name == "back-left"@ {
            Some(CameraView::BackLeft)
        } else if name == "back-right"@ {
            Some(CameraView::BackRight)
        } else {
            None
        }
    }

    /// Command-line arguments that place the camera for this view: the
    /// rotation about the origin, then the flags that fit the model to the
    /// frame.
    pub fn to_camera_args(&self) -> (r: Vec<String>)
        ensures
            r@.len() == 3,
            r@[0]@ == "--camera=0,0,0,"@ + self.rotation(),
            r@[1]@ == "--viewall"@,
            r@[2]@ == "--autocenter"@,
    {
        let rotation = match self {
            CameraView::Front => "0,0,0",
            CameraView::Back => "0,0,180",
            CameraView::Left => "0,0,90",
            CameraView::Right => "0,0,270",
            CameraView::Top => "90,0,0",
            CameraView::Bottom => "-90,0,0",
            CameraView::FrontLeft => "55,0,45",
            CameraView::FrontRight => "55,0,315",
            CameraView::BackLeft => "55,0,135",
            CameraView::BackRight => "55,0,225",
        };
        let camera = "--camera=0,0,0,".to_string().concat(rotation);
        let mut args: Vec<String> = Vec::new();
        args.push(camera);
        args.push("--viewall".to_string());
        args.push("--autocenter".to_string());
        args
    }

    /// Reads a view from its kebab-case name; any other text is an error
    /// whose message quotes it.
    pub fn from_str(s: &str) -> (r: Result<Self, String>)
        ensures
            match r {
                Ok(v) => CameraView::named(s@) == Some(v),
                Err(e) => CameraView::named(s@) is None && e@ == "Unknown camera view: "@ + s@,
            },
    {
        if str_eq(s, "front") {
            Ok(CameraView::Front)
        } else if str_eq(s, "back") {
            Ok(CameraView::Back)
        } else if str_eq(s, "left") {
            Ok(CameraView::Left)
        } else if str_eq(s, "right") {
            Ok(CameraView::Right)
        } else if str_eq(s, "top") {
            Ok(CameraView::Top)
        } else if str_eq(s, "bottom") {
            Ok(CameraView::Bottom)
        } else if str_eq(s, "front-left") {
            Ok(CameraView::FrontLeft)
        } else if str_eq(s, "front-right") {
            Ok(CameraView::FrontRight)
        } else if str_eq(s, "back-left") {
            Ok(CameraView::BackLeft)
        } else if str_eq(s, "back-right") {
            Ok(CameraView::BackRight)
        } else {
            Err("Unknown camera view: ".to_string().concat(s))
        }
    }
}

#[derive(Debug, Clone)]
pub enum ExportFormat {
    Stl,
    Obj,
    Amf,
    ThreeMf,
    Png,
    Svg,
    Dxf,
}

#[derive(Debug, Clone)]
pub struct Size {
    pub w: u32,
    pub h: u32,
}

#[derive(Debug, Clone)]
pub struct RenderPreviewRequest {
    pub source: String,
    pub backend: Option<BackendType>,
    pub view: Option<ViewMode>,
    pub size: Option<Size>,
    pub render_mesh: Option<bool>,
    pub working_dir: Option<String>,
}

#[derive(Debug, Clone)]
pub struct RenderPreviewResponse {
    pub kind: RenderKind,
    pub path: String,
    pub diagnostics: Vec<Diagnostic>,
}

#[derive(Debug, Clone)]
pub struct DetectBackendResponse {
    pub has_manifold: bool,
    pub version: String,
}

#[derive(Debug, Clone)]
pub struct LocateOpenScadRequest {
    pub explicit_path: Option<String>,
}

#[derive(Debug, Clone)]
pub struct LocateOpenScadResponse {
    pub exe_path: String,
}

#[derive(Debug, Clone)]
pub struct RenderExactRequest {
    pub source: String,
    pub backend: Option<BackendType>,
    pub format: ExportFormat,
    pub out_path: String,
    pub working_dir: Option<String>,
}

#[derive(Debug, Clone)]
pub struct RenderExactResponse {
    pub path: String,
    pub diagnostics: Vec<Diagnostic>,
}

#[derive(Debug, PartialEq, Eq)]
pub enum ChangeType {
    User,
    Ai,
    FileLoad,
    Undo,
    Redo,
}

impl Clone for ChangeType {
    fn clone(&self) -> (r: Self)
        ensures
            r == *self,
    {
        match self {
            ChangeType::User => ChangeType::User,
            ChangeType::Ai => ChangeType::Ai,
            ChangeType::FileLoad => ChangeType::FileLoad,
            ChangeType::Undo => ChangeType::Undo,
            ChangeType::Redo => ChangeType::Redo,
        }
    }
}

/// A full snapshot of the document with the metadata of its creation.
#[derive(Debug)]
pub struct EditorCheckpoint {
    pub id: String,
    pub timestamp: i64,
    pub code: String,
    pub diagnostics: Vec<Diagnostic>,
    pub description: String,
    pub change_type: ChangeType,
}

/// What a checkpoint holds, with its texts as sequences of characters.
pub ghost struct CheckpointView {
    pub id: Seq<char>,
    pub timestamp: i64,
    pub code: Seq<char>,
    pub diagnostics: Seq<DiagnosticView>,
    pub description: Seq<char>,
    pub change_type: ChangeType,
}

impl View for EditorCheckpoint {
    type V = CheckpointView;

    open spec fn view(&self) -> CheckpointView {
        CheckpointView {
            id: self.id@,
            timestamp: self.timestamp,
            code: self.code@,
            diagnostics: diagnostic_views(self.diagnostics@),
            description: self.description@,
            change_type: self.change_type,
        }
    }
}

/// The views of a list of checkpoints, in order.
pub open spec fn checkpoint_views(checkpoints: Seq<EditorCheckpoint>) -> Seq<CheckpointView> {
    checkpoints.map_values(|c: EditorCheckpoint| c@)
}

impl Clone for EditorCheckpoint {
    fn clone(&self) -> (r: Self)
        ensures
            r@ == self@,
    {
        EditorCheckpoint {
            id: self.id.clone(),
            timestamp: self.timestamp,
            code: self.code.clone(),
            diagnostics: clone_diagnostics(&self.diagnostics),
            description: self.description.clone(),
            change_type: self.change_type.clone(),
        }
    }
}

#[derive(Debug, Clone)]
pub struct CheckpointDiff {
    pub from_id: String,
    pub to_id: String,
    pub diff: String,
    pub added_lines: usize,
    pub removed_lines: usize,
}

#[derive(Debug, Clone)]
pub struct ModelInfo {
    pub id: String,
    pub display_name: String,
    pub provider: String,
    pub model_type: String,
    pub context_window: Option<u32>,
    pub created_at: Option<i64>,
}

#[derive(Debug, Clone)]
pub struct CachedModels {
    pub models: Vec<ModelInfo>,
    pub fetched_at: i64,
    pub ttl_hours: u32,
}

#[derive(Debug, Clone)]
pub struct FetchModelsResponse {
    pub models: Vec<ModelInfo>,
    pub from_cache: bool,
    pub cache_age_minutes: Option<u64>,
}

#[derive(Debug, Clone)]
pub struct ModelValidation {
    pub is_valid: bool,
    pub model_id: String,
    pub fallback_model: Option<String>,
    pub message: Option<String>,
}

} // verus!
