//! The named operations that an assistant may call on the editor, and the
//! reports that it reads back: the document, its diagnostics, and what
//! became of an edit.

use vstd::prelude::*;
use vstd::string::*;
use crate::edit::{ApplyEditResult, EditorState};
use crate::text::{push_signed_decimal, push_str, signed_decimal, str_eq, string_of};
use crate::types::{
    diagnostic_views, CameraView, Diagnostic, DiagnosticSeverity, DiagnosticView,
};

verus! {

/// An operation on the editor that can be called by name.
#[derive(Debug, PartialEq, Eq, Structural, Clone, Copy)]
pub enum Tool {
    GetCurrentCode,
    GetPreviewScreenshot,
    ApplyEdit,
    GetDiagnostics,
    TriggerRender,
}

impl Tool {
    /// The operation with the given name, if there is one.
    pub open spec fn named(name: Seq<char>) -> Option<Tool> {
        if name == "get_current_code"@ {
            Some(Tool::GetCurrentCode)
        } else if name == "get_preview_screenshot"@ {
            Some(Tool::GetPreviewScreenshot)
        } else if name == "apply_edit"@ {
            Some(Tool::ApplyEdit)
        } else if name == "get_diagnostics"@ {
            Some(Tool::GetDiagnostics)
        } else if name == "trigger_render"@ {
            Some(Tool::TriggerRender)
        } else {
            None
        }
    }

    /// Finds an operation by its name; any other name is an error whose
    /// message quotes it.
    pub fn from_name(name: &str) -> (r: Result<Tool, String>)
        ensures
            match r {
                Ok(tool) => Tool::named(name@) == Some(tool),
                Err(e) => Tool::named(name@) is None && e@ == "Unknown tool: "@ + name@,
            },
    {
        if str_eq(name, "get_current_code") {
            Ok(Tool::GetCurrentCode)
        } else if str_eq(name, "get_preview_screenshot") {
            Ok(Tool::GetPreviewScreenshot)
        } else if str_eq(name, "apply_edit") {
            Ok(Tool::ApplyEdit)
        } else if str_eq(name, "get_diagnostics") {
            Ok(Tool::GetDiagnostics)
        } else if str_eq(name, "trigger_render") {
            Ok(Tool::TriggerRender)
        } else {
            Err("Unknown tool: ".to_string().concat(name))
        }
    }
}

/// The arguments of an edit: the text to replace, its replacement, and why.
#[derive(Debug)]
pub struct EditRequest {
    pub old_string: String,
    pub new_string: String,
    pub rationale: String,
}

/// Gathers the arguments of an edit; the first one that is missing, in the
/// order old text, new text, rationale, is named in the error.
pub fn edit_request(
    old_string: Option<String>,
    new_string: Option<String>,
    rationale: Option<String>,
) -> (r: Result<EditRequest, String>)
    ensures
        match r {
            Ok(request) => old_string == Some(request.old_string) && new_string == Some(
                request.new_string,
            ) && rationale == Some(request.rationale),
            Err(e) => if old_string is None {
                e@ == "Missing old_string"@
            } else if new_string is None {
                e@ == "Missing new_string"@
            } else {
                rationale is None && e@ == "Missing rationale"@
            },
        },
{
    let old_string = match old_string {
        Some(s) => s,
        None => { return Err("Missing old_string".to_string()); },
    };
    let new_string = match new_string {
        Some(s) => s,
        None => { return Err("Missing new_string".to_string()); },
    };
    let rationale = match rationale {
        Some(s) => s,
        None => { return Err("Missing rationale".to_string()); },
    };
    Ok(EditRequest { old_string, new_string, rationale })
}

/// The document as an assistant reads it: its text, or a comment that
/// stands for an empty file.
pub fn code_report(code: String) -> (r: String)
    ensures
        r@ == if code@.len() == 0 {
            "// Empty file"@
        } else {
            code@
        },
{
    if code.as_str().unicode_len() == 0 {
        "// Empty file".to_string()
    } else {
        code
    }
}

/// Where the last preview lies, or a hint that none was rendered yet.
pub fn preview_path_report(state: &EditorState) -> (r: String)
    ensures
        r@ == if state.last_preview_path@.len() == 0 {
            "No preview available yet. Trigger a render first."@
        } else {
            state.last_preview_path@
        },
{
    if state.last_preview_path.as_str().unicode_len() == 0 {
        "No preview available yet. Trigger a render first.".to_string()
    } else {
        state.last_preview_path.clone()
    }
}

/// What is to be done for a screenshot.
#[derive(Debug)]
pub enum ScreenshotStep {
    /// The last preview serves; the payload is what is said of it.
    Existing(String),
    /// The given code is to be rendered from the given side.
    Render { view: CameraView, code: String },
}

/// What is to be done for a screenshot of the document.
pub open spec fn screenshot_plan(state: EditorState, view: Option<Seq<char>>) -> Result<
    (Option<CameraView>, Seq<char>),
    Seq<char>,
> {
    match view {
        None => Ok(
            (
                None,
                if state.last_preview_path@.len() == 0 {
                    "No preview available yet. Trigger a render first."@
                } else {
                    state.last_preview_path@
                },
            ),
        ),
        Some(name) => match CameraView::named(name) {
            None => Err("Unknown camera view: "@ + name),
            Some(side) => if state.current_code@.len() == 0 {
                Err("No code to render. Add some OpenSCAD code first."@)
            } else {
                Ok((Some(side), state.current_code@))
            },
        },
    }
}

/// Decides what is to be done for a screenshot: without a view the last
/// preview serves; with one, the view must be known and the document must
/// hold code, which is then to be rendered from that side.
pub fn screenshot_step(state: &EditorState, view: Option<&str>) -> (r: Result<
    ScreenshotStep,
    String,
>)
    ensures
        match r {
            Ok(ScreenshotStep::Existing(text)) => screenshot_plan(
                *state,
                match view {
                    Some(name) => Some(name@),
                    None => None,
                },
            ) == Ok::<(Option<CameraView>, Seq<char>), Seq<char>>((None, text@)),
            Ok(ScreenshotStep::Render { view: side, code }) => screenshot_plan(
                *state,
                match view {
                    Some(name) => Some(name@),
                    None => None,
                },
            ) == Ok::<(Option<CameraView>, Seq<char>), Seq<char>>((Some(side), code@)),
            Err(e) => screenshot_plan(
                *state,
                match view {
                    Some(name) => Some(name@),
                    None => None,
                },
            ) == Err::<(Option<CameraView>, Seq<char>), Seq<char>>(e@),
        },
{
    let name = match view {
        Some(name) => name,
        None => { return Ok(ScreenshotStep::Existing(preview_path_report(state))); },
    };
    let side = match CameraView::from_str(name) {
        Ok(side) => side,
        Err(e) => { return Err(e); },
    };
    if state.current_code.as_str().unicode_len() == 0 {
        return Err("No code to render. Add some OpenSCAD code first.".to_string());
    }
    Ok(ScreenshotStep::Render { view: side, code: state.current_code.clone() })
}

/// What an assistant is told about a preview image at `path`.
pub fn preview_report(path: &str) -> (r: String)
    ensures
        r@ == "Preview image saved at: "@ + path@
            + "\n\nThis shows the current rendered output of the OpenSCAD code."@,
{
    "Preview image saved at: ".to_string().concat(path).concat(
        "\n\nThis shows the current rendered output of the OpenSCAD code.",
    )
}

/// What an assistant is told after a render was asked for.
pub fn render_triggered_report() -> (r: String)
    ensures
        r@ == "✅ Render triggered. Check the preview pane for the updated output."@,
{
    "✅ Render triggered. Check the preview pane for the updated output.".to_string()
}

/// The name of a severity.
pub open spec fn severity_name(severity: DiagnosticSeverity) -> Seq<char> {
    match severity {
        DiagnosticSeverity::Error => "Error"@,
        DiagnosticSeverity::Warning => "Warning"@,
        DiagnosticSeverity::Info => "Info"@,
    }
}

/// Where a diagnostic points, in brackets: line and column, the line alone,
/// or nothing where no line is known.
pub open spec fn location_text(d: DiagnosticView) -> Seq<char> {
    match d.line {
        Some(line) => match d.col {
            Some(col) => " (line "@ + signed_decimal(line as int) + ", col "@ + signed_decimal(
                col as int,
            ) + ")"@,
            None => " (line "@ + signed_decimal(line as int) + ")"@,
        },
        None => Seq::empty(),
    }
}

/// A diagnostic on one line: severity, location and message behind
/// `indent`.
pub open spec fn diagnostic_line(d: DiagnosticView, indent: Seq<char>) -> Seq<char> {
    indent + "["@ + severity_name(d.severity) + "]"@ + location_text(d) + ": "@ + d.message
}

/// Diagnostics one per line, with line feeds between them.
pub open spec fn diagnostic_lines(ds: Seq<DiagnosticView>, indent: Seq<char>) -> Seq<char>
    decreases ds.len(),
{
    if ds.len() == 0 {
        Seq::empty()
    } else if ds.len() == 1 {
        diagnostic_line(ds[0], indent)
    } else {
        diagnostic_lines(ds.drop_last(), indent) + "\n"@ + diagnostic_line(ds.last(), indent)
    }
}

/// Appends a diagnostic on one line to `out`.
fn push_diagnostic_line(out: &mut Vec<char>, d: &Diagnostic, indent: &str)
    ensures
        final(out)@ == old(out)@ + diagnostic_line(d@, indent@),
{
    push_str(out, indent);
    push_str(out, "[");
    match d.severity {
        DiagnosticSeverity::Error => push_str(out, "Error"),
        DiagnosticSeverity::Warning => push_str(out, "Warning"),
        DiagnosticSeverity::Info => push_str(out, "Info"),
    }
    push_str(out, "]");
    let ghost before = out@;
    if let Some(line) = d.line {
        push_str(out, " (line ");
        push_signed_decimal(out, line as i64);
        if let Some(col) = d.col {
            push_str(out, ", col ");
            push_signed_decimal(out, col as i64);
        }
        push_str(out, ")");
    }
    assert(out@ =~= before + location_text(d@));
    push_str(out, ": ");
    push_str(out, d.message.as_str());
    assert(out@ =~= old(out)@ + diagnostic_line(d@, indent@));
}

/// Appends diagnostics one per line to `out`.
fn push_diagnostic_lines(out: &mut Vec<char>, diagnostics: &Vec<Diagnostic>, indent: &str)
    ensures
        final(out)@ == old(out)@ + diagnostic_lines(diagnostic_views(diagnostics@), indent@),
{
    let ghost views = diagnostic_views(diagnostics@);
    let mut i: usize = 0;
    while i < diagnostics.len()
        invariant
            views == diagnostic_views(diagnostics@),
            i <= diagnostics.len(),
            out@ == old(out)@ + diagnostic_lines(views.take(i as int), indent@),
        decreases diagnostics.len() - i,
    {
        assert(views.take(i + 1).drop_last() =~= views.take(i as int));
        assert(views.take(i + 1).last() == diagnostics@[i as int]@);
        let ghost before = out@;
        if i > 0 {
            push_str(out, "\n");
        }
        push_diagnostic_line(out, &diagnostics[i], indent);
        proof {
            if i == 0 {
                assert(views.take(1)[0] == diagnostics@[0]@);
                assert(diagnostic_lines(views.take(0), indent@) =~= Seq::<char>::empty());
            }
            assert(out@ =~= old(out)@ + diagnostic_lines(views.take(i + 1), indent@));
        }
        i += 1;
    }
    assert(views.take(diagnostics.len() as int) =~= views);
}

/// The report on the document's diagnostics.
pub open spec fn diagnostics_report_text(ds: Seq<DiagnosticView>) -> Seq<char> {
    if ds.len() == 0 {
        "✅ No errors or warnings. The code compiles successfully."@
    } else {
        "Current diagnostics:\n\n"@ + diagnostic_lines(ds, Seq::empty())
    }
}

/// The report on the document's diagnostics: each with severity, location
/// and message, or the news that there are none.
pub fn diagnostics_report(diagnostics: &Vec<Diagnostic>) -> (r: String)
    ensures
        r@ == diagnostics_report_text(diagnostic_views(diagnostics@)),
{
    if diagnostics.len() == 0 {
        return "✅ No errors or warnings. The code compiles successfully.".to_string();
    }
    let mut out: Vec<char> = Vec::new();
    push_str(&mut out, "Current diagnostics:\n\n");
    proof {
        reveal_strlit("");
    }
    push_diagnostic_lines(&mut out, diagnostics, "");
    assert(""@ =~= Seq::<char>::empty());
    assert(out@ =~= diagnostics_report_text(diagnostic_views(diagnostics@)));
    string_of(&out, 0, out.len())
}

/// The report on an edit.
pub open spec fn edit_report_text(result: ApplyEditResult, rationale: Seq<char>) -> Seq<char> {
    if result.success {
        "✅ Edit applied successfully!\n✅ Code compiles without new errors\n✅ Preview has been updated automatically\n\nRationale: "@
            + rationale + "\n\nThe changes are now live in the editor."@ + match result.checkpoint_id {
            Some(id) => "\n\n[CHECKPOINT:"@ + id@ + "]"@,
            None => Seq::empty(),
        }
    } else {
        "❌ Failed to apply edit: "@ + match result.error {
            Some(e) => e.text(),
            None => "Unknown error"@,
        } + (if result.diagnostics@.len() > 0 {
            "\n\nCompilation errors after applying edit:\n"@ + diagnostic_lines(
                diagnostic_views(result.diagnostics@),
                "  "@,
            )
        } else {
            Seq::empty()
        }) + "\n\nRationale: "@ + rationale
            + "\n\nThe edit was rolled back. No changes were made. Please fix the errors and try again."@
    }
}

/// The report on an edit. A committed edit is confirmed with its rationale
/// and the checkpoint taken before it. A refused edit is reported with the
/// error, every diagnostic of the candidate, and the rationale.
pub fn edit_report(result: &ApplyEditResult, rationale: &str) -> (r: String)
    ensures
        r@ == edit_report_text(*result, rationale@),
{
    let mut out: Vec<char> = Vec::new();
    if result.success {
        push_str(
            &mut out,
            "✅ Edit applied successfully!\n✅ Code compiles without new errors\n✅ Preview has been updated automatically\n\nRationale: ",
        );
        push_str(&mut out, rationale);
        push_str(&mut out, "\n\nThe changes are now live in the editor.");
        let ghost before = out@;
        if let Some(id) = &result.checkpoint_id {
            push_str(&mut out, "\n\n[CHECKPOINT:");
            push_str(&mut out, id.as_str());
            push_str(&mut out, "]");
        }
        assert(out@ =~= edit_report_text(*result, rationale@));
    } else {
        push_str(&mut out, "❌ Failed to apply edit: ");
        match &result.error {
            Some(e) => {
                let message = e.message();
                push_str(&mut out, message.as_str());
            },
            None => {
                push_str(&mut out, "Unknown error");
            },
        }
        if result.diagnostics.len() > 0 {
            push_str(&mut out, "\n\nCompilation errors after applying edit:\n");
            push_diagnostic_lines(&mut out, &result.diagnostics, "  ");
        }
        push_str(&mut out, "\n\nRationale: ");
        push_str(&mut out, rationale);
        push_str(
            &mut out,
            "\n\nThe edit was rolled back. No changes were made. Please fix the errors and try again.",
        );
        assert(out@ =~= edit_report_text(*result, rationale@));
    }
    string_of(&out, 0, out.len())
}

/// What the assistant is told about its task before a conversation: what
/// it can do, the rules for edits, and a short reference of the language.
pub const SYSTEM_PROMPT: &'static str = r#"## OpenSCAD AI Assistant

You are an expert OpenSCAD assistant helping users design and modify 3D models. You have access to tools that let you see the current code, view the rendered preview, and make targeted code changes.

### Your Capabilities:
- **View code**: Use `get_current_code` to see what you're working with
- **See the design**: Use `get_preview_screenshot` to see the rendered output
- **Check for errors**: Use `get_diagnostics` to check compilation errors and warnings
- **Make changes**: Use `apply_edit` to modify the code with exact string replacement
- **Update preview**: Use `trigger_render` to manually refresh the preview

### Critical Rules for Editing:
1. **ALWAYS use exact string replacement**: Never output full file replacements. Use `apply_edit` with exact substrings.
2. **Provide exact substrings**: The `old_string` must match exactly (including whitespace and indentation) and must be unique in the file.
3. **Keep changes small**: Maximum 120 lines changed per edit. Break large changes into multiple steps.
4. **Automatic validation**: `apply_edit` validates the edit and test-compiles the code before applying. If validation fails, the error will be returned and no changes are made.
5. **Include context**: Make the `old_string` large enough to be unique - include surrounding lines if needed.

### Recommended Workflow:
1. Start by calling `get_current_code` to understand what exists
2. Optionally use `get_preview_screenshot` to see the rendered output
3. For fixes, use `get_diagnostics` to see what errors exist
4. Use `apply_edit` with the exact old text, new replacement, and a rationale explaining the change
5. The preview updates automatically after successful edits

### OpenSCAD Quick Reference:

**3D Primitives:**
- `cube([x, y, z]);` or `cube(size);`
- `sphere(r);` or `sphere(d);`
- `cylinder(h, r1, r2);` or `cylinder(h, d1, d2);`

**2D Primitives:**
- `circle(r);` or `circle(d);`
- `square([x, y]);` or `square(size);`
- `polygon(points);`

**Transformations:**
- `translate([x, y, z]) { ... }`
- `rotate([rx, ry, rz]) { ... }`
- `scale([sx, sy, sz]) { ... }`
- `mirror([x, y, z]) { ... }`

**Boolean Operations:**
- `union() { ... }` - combines objects (default)
- `difference() { ... }` - subtracts subsequent objects from first
- `intersection() { ... }` - keeps only overlapping parts

**2D to 3D:**
- `linear_extrude(height) { ... }`
- `rotate_extrude(angle) { ... }`

**Modifiers:**
- `#` - debug (show in transparent red)
- `%` - background (show transparently)
- `*` - disable (don't render)
- `!` - show only this

**Control Structures:**
- `for (i = [start:end]) { ... }`
- `if (condition) { ... }`
- Variables: `x = 10;`
- Functions: `function name(params) = expression;`
"#;

/// The instructions that open every conversation.
pub fn build_system_prompt() -> (r: String)
    ensures
        r@ == SYSTEM_PROMPT@,
{
    SYSTEM_PROMPT.to_string()
}

} // verus!
