//! What a render of the document needs before and after the build tool
//! runs: the cache key, the output file, the command line, and the message
//! for a render that left no output.

use vstd::prelude::*;
use vstd::string::*;
use vstd::utf8::*;
use std::path::PathBuf;
use crate::cache::{filed, fits, key_material, sha256_hex, CacheEntry, RenderCache};
use crate::edit::EditorState;
use crate::parser::{parse_openscad_stderr, parsed};
use crate::text::{
    contains, contains_str, decimal, ends_with, has_suffix, push_decimal, push_signed_decimal,
    push_str, signed_decimal, str_eq, string_of, to_chars,
};
use crate::types::{
    clone_diagnostics, diagnostic_views, BackendType, CameraView, Diagnostic, DiagnosticSeverity,
    DiagnosticView, ExportFormat, RenderExactRequest, RenderKind, RenderPreviewRequest,
    RenderPreviewResponse, Size, ViewMode,
};

verus! {

/// The name of a view mode.
pub open spec fn view_name(view: ViewMode) -> Seq<char> {
    match view {
        ViewMode::ThreeD => "3d"@,
        ViewMode::TwoD => "2d"@,
    }
}

/// The name of a backend.
pub open spec fn backend_name(backend: BackendType) -> Seq<char> {
    match backend {
        BackendType::Manifold => "manifold"@,
        BackendType::Cgal => "cgal"@,
        BackendType::Auto => "auto"@,
    }
}

/// The name of a kind of render output.
pub open spec fn kind_name(kind: RenderKind) -> Seq<char> {
    match kind {
        RenderKind::Mesh => "mesh"@,
        RenderKind::Png => "png"@,
        RenderKind::Svg => "svg"@,
    }
}

/// The kind of output with the given name; an image where the name is
/// unknown.
pub open spec fn kind_named(name: Seq<char>) -> RenderKind {
    if name == "mesh"@ {
        RenderKind::Mesh
    } else if name == "svg"@ {
        RenderKind::Svg
    } else {
        RenderKind::Png
    }
}

/// The file extension of an export format.
pub open spec fn extension(format: ExportFormat) -> Seq<char> {
    match format {
        ExportFormat::Stl => "stl"@,
        ExportFormat::Obj => "obj"@,
        ExportFormat::Amf => "amf"@,
        ExportFormat::ThreeMf => "3mf"@,
        ExportFormat::Png => "png"@,
        ExportFormat::Svg => "svg"@,
        ExportFormat::Dxf => "dxf"@,
    }
}

/// The name of an export format in messages: its extension in capitals.
pub open spec fn format_label(format: ExportFormat) -> Seq<char> {
    match format {
        ExportFormat::Stl => "STL"@,
        ExportFormat::Obj => "OBJ"@,
        ExportFormat::Amf => "AMF"@,
        ExportFormat::ThreeMf => "3MF"@,
        ExportFormat::Png => "PNG"@,
        ExportFormat::Svg => "SVG"@,
        ExportFormat::Dxf => "DXF"@,
    }
}

/// The view that a preview request asks for: three-dimensional unless it
/// says otherwise.
pub open spec fn requested_view(request: RenderPreviewRequest) -> ViewMode {
    match request.view {
        Some(view) => view,
        None => ViewMode::ThreeD,
    }
}

/// The backend that a preview request asks for: the tool's choice unless it
/// says otherwise.
pub open spec fn requested_backend(request: RenderPreviewRequest) -> BackendType {
    match request.backend {
        Some(backend) => backend,
        None => BackendType::Auto,
    }
}

/// Whether a preview request asks for a mesh.
pub open spec fn wants_mesh(request: RenderPreviewRequest) -> bool {
    request.render_mesh == Some(true)
}

/// The kind of output that a preview gives: a mesh where one is asked for in
/// three dimensions, else a vector image in two dimensions and a raster
/// image in three.
pub open spec fn preview_kind(view: ViewMode, render_mesh: bool) -> RenderKind {
    match view {
        ViewMode::ThreeD => if render_mesh {
            RenderKind::Mesh
        } else {
            RenderKind::Png
        },
        ViewMode::TwoD => RenderKind::Svg,
    }
}

/// The file extension of a kind of preview output.
pub open spec fn kind_extension(kind: RenderKind) -> Seq<char> {
    match kind {
        RenderKind::Mesh => "stl"@,
        RenderKind::Png => "png"@,
        RenderKind::Svg => "svg"@,
    }
}

/// The name of the file that a preview is rendered to: it carries the first
/// sixteen characters of the cache key, so that no render overwrites the
/// cached output of another.
pub open spec fn preview_file_name(kind: RenderKind, cache_key: Seq<char>) -> Seq<char> {
    "render_"@ + cache_key.take(16) + "."@ + kind_extension(kind)
}

/// The flag that selects a backend, where one is to be given.
pub open spec fn backend_flag(backend: Option<BackendType>) -> Seq<Seq<char>> {
    match backend {
        Some(BackendType::Manifold) => seq!["--backend=manifold"@],
        Some(BackendType::Cgal) => seq!["--backend=cgal"@],
        _ => Seq::empty(),
    }
}

/// The flags that size a raster preview and ask for the quick render.
pub open spec fn image_flags(view: ViewMode, render_mesh: bool, size: Option<Size>) -> Seq<
    Seq<char>,
> {
    if render_mesh {
        Seq::empty()
    } else {
        match view {
            ViewMode::ThreeD => seq![
                match size {
                    Some(size) => "--imgsize="@ + decimal(size.w as nat) + ","@ + decimal(
                        size.h as nat,
                    ),
                    None => "--imgsize=800,600"@,
                },
                "--preview"@,
            ],
            ViewMode::TwoD => Seq::empty(),
        }
    }
}

/// The build tool's arguments for a preview: output and input file, then
/// the backend flag, then the image flags.
pub open spec fn preview_arguments(
    out_path: Seq<char>,
    scad_path: Seq<char>,
    request: RenderPreviewRequest,
) -> Seq<Seq<char>> {
    seq!["-o"@, out_path, scad_path] + backend_flag(request.backend) + image_flags(
        requested_view(request),
        wants_mesh(request),
        request.size,
    )
}

/// The build tool's arguments for an export: output and input file, then
/// the backend flag, then size and quick render for a raster image.
pub open spec fn export_arguments(scad_path: Seq<char>, request: RenderExactRequest) -> Seq<
    Seq<char>,
> {
    seq!["-o"@, request.out_path@, scad_path] + backend_flag(request.backend) + (
    if request.format is Png {
        seq!["--imgsize=1920,1440"@, "--preview"@]
    } else {
        Seq::empty()
    })
}

/// The texts of a list of strings.
pub open spec fn texts(strings: Seq<String>) -> Seq<Seq<char>> {
    strings.map_values(|s: String| s@)
}

/// The lines that report the errors among `ds`: each error's message,
/// behind its line number where it has one.
pub open spec fn error_lines(ds: Seq<DiagnosticView>) -> Seq<char>
    decreases ds.len(),
{
    if ds.len() == 0 {
        Seq::empty()
    } else {
        let d = ds.last();
        error_lines(ds.drop_last()) + if d.severity == DiagnosticSeverity::Error {
            (match d.line {
                Some(line) => "Line "@ + signed_decimal(line as int) + ": "@,
                None => Seq::empty(),
            }) + d.message + "\n"@
        } else {
            Seq::empty()
        }
    }
}

/// Whether any of `ds` is an error.
pub open spec fn has_errors(ds: Seq<DiagnosticView>) -> bool {
    exists|i: int| 0 <= i < ds.len() && (#[trigger] ds[i]).severity == DiagnosticSeverity::Error
}

/// The message for a render that left no output although errors were
/// reported.
pub open spec fn error_summary(ds: Seq<DiagnosticView>) -> Seq<char> {
    "OpenSCAD failed to render due to errors:\n\n"@ + error_lines(ds)
}

/// The last offset at or before `at` at which a character of the text with
/// the given bytes begins or the text ends.
pub open spec fn cut_point(bytes: Seq<u8>, at: int) -> int
    decreases at,
{
    if at <= 0 {
        0
    } else if is_char_boundary(bytes, at) {
        at
    } else {
        cut_point(bytes, at - 1)
    }
}

/// The build tool's output as quoted in a message: whole up to a thousand
/// bytes, else `note` behind the characters that lie within its first
/// thousand bytes.
pub open spec fn output_excerpt(stderr: Seq<char>, note: Seq<char>) -> Seq<char> {
    if encode_utf8(stderr).len() > 1000 {
        decode_utf8(encode_utf8(stderr).subrange(0, cut_point(encode_utf8(stderr), 1000))) + note
    } else {
        stderr
    }
}

/// The build tool's output says that the shape has three dimensions where
/// two are needed.
pub open spec fn mentions_3d_in_2d(stderr: Seq<char>) -> bool {
    contains(stderr, "3D object"@) || contains(stderr, "not a 2D object"@)
}

/// The build tool's output says that the shape has two dimensions where
/// three are needed.
pub open spec fn mentions_2d_in_3d(stderr: Seq<char>) -> bool {
    contains(stderr, "not a 3D object"@) || contains(stderr, "2D object"@)
}

/// The message for a preview that left no output and reported no error.
pub open spec fn preview_unknown_failure(view: ViewMode, stderr: Seq<char>) -> Seq<char> {
    if view is TwoD && mentions_3d_in_2d(stderr) {
        "Cannot render 3D objects in 2D mode. Switch to 3D mode or use a 2D shape (e.g., square, circle, polygon)."@
    } else if view is ThreeD && mentions_2d_in_3d(stderr) {
        "Cannot render 2D objects in 3D mode. Switch to 2D mode or use a 3D shape (e.g., cube, sphere, cylinder)."@
    } else if contains(stderr, "WARNING: Can't convert"@) {
        "OpenSCAD cannot convert this geometry. Try switching between 2D and 3D modes."@
    } else {
        "OpenSCAD failed to create output file.\n\nThis usually means the geometry doesn't match the current mode (2D/3D).\n\nOpenSCAD output:\n"@
            + output_excerpt(stderr, "...\n\n(Output truncated. Full output in console.)"@)
    }
}

/// The message for a preview that left no output.
pub open spec fn preview_failure(
    view: ViewMode,
    stderr: Seq<char>,
    ds: Seq<DiagnosticView>,
) -> Seq<char> {
    if has_errors(ds) {
        error_summary(ds)
    } else {
        preview_unknown_failure(view, stderr)
    }
}

/// Whether an export format holds a solid.
pub open spec fn is_3d_format(format: ExportFormat) -> bool {
    format is Stl || format is Obj || format is Amf || format is ThreeMf
}

/// Whether an export format holds a flat drawing.
pub open spec fn is_2d_format(format: ExportFormat) -> bool {
    format is Svg || format is Dxf
}

/// The message for an export that left no output and reported no error.
pub open spec fn export_unknown_failure(format: ExportFormat, stderr: Seq<char>) -> Seq<char> {
    if is_2d_format(format) && mentions_3d_in_2d(stderr) {
        "Cannot export 3D objects as "@ + format_label(format)
            + ". Use a 2D shape (e.g., square, circle, polygon) or choose a 3D export format (STL, OBJ, etc.)."@
    } else if is_3d_format(format) && mentions_2d_in_3d(stderr) {
        "Cannot export 2D objects as "@ + format_label(format)
            + ". Use a 3D shape (e.g., cube, sphere, cylinder) or choose a 2D export format (SVG, DXF)."@
    } else {
        "OpenSCAD failed to create output file.\n\nOpenSCAD output:\n"@ + output_excerpt(
            stderr,
            "...\n\n(Output truncated)"@,
        )
    }
}

/// The message for an export that left no output.
pub open spec fn export_failure(
    format: ExportFormat,
    stderr: Seq<char>,
    ds: Seq<DiagnosticView>,
) -> Seq<char> {
    if has_errors(ds) {
        error_summary(ds)
    } else {
        export_unknown_failure(format, stderr)
    }
}

/// Every input of a preview shapes the material of its cache key: two
/// requests with the same key material have the same source and ask for the
/// same backend, view and kind of output.
pub proof fn lemma_preview_keys_tell_requests_apart(
    request1: RenderPreviewRequest,
    request2: RenderPreviewRequest,
)
    requires
        fits(request1.source@),
        fits(request2.source@),
        key_material(
            request1.source@,
            backend_name(requested_backend(request1)),
            view_name(requested_view(request1)),
            wants_mesh(request1),
        ) == key_material(
            request2.source@,
            backend_name(requested_backend(request2)),
            view_name(requested_view(request2)),
            wants_mesh(request2),
        ),
    ensures
        request1.source@ == request2.source@,
        requested_backend(request1) == requested_backend(request2),
        requested_view(request1) == requested_view(request2),
        wants_mesh(request1) == wants_mesh(request2),
{
    broadcast use is_ascii_chars_encode_utf8;

    reveal_strlit("3d");
    reveal_strlit("2d");
    reveal_strlit("manifold");
    reveal_strlit("cgal");
    reveal_strlit("auto");
    let b1 = backend_name(requested_backend(request1));
    let b2 = backend_name(requested_backend(request2));
    let v1 = view_name(requested_view(request1));
    let v2 = view_name(requested_view(request2));
    assert(is_ascii_chars(b1) && is_ascii_chars(b2) && is_ascii_chars(v1) && is_ascii_chars(v2));
    assert(encode_utf8(b1).len() == b1.len() && encode_utf8(b2).len() == b2.len());
    assert(encode_utf8(v1).len() == v1.len() && encode_utf8(v2).len() == v2.len());
    crate::cache::lemma_key_material_tells_inputs_apart(
        request1.source@,
        b1,
        v1,
        wants_mesh(request1),
        request2.source@,
        b2,
        v2,
        wants_mesh(request2),
    );
    if requested_backend(request1) != requested_backend(request2) {
        assert(b1.len() != b2.len() || b1[0] != b2[0]);
    }
    if requested_view(request1) != requested_view(request2) {
        assert(v1[0] != v2[0]);
    }
}

/// Whether a render left no output: the file is missing or holds nothing.
pub fn output_is_missing(is_there: bool, byte_len: u64) -> (r: bool)
    ensures
        r == (!is_there || byte_len == 0),
{
    !is_there || byte_len == 0
}

/// The cache key of a preview request: the digest of its source, backend,
/// view and kind of output, with the defaults filled in.
pub fn preview_cache_key(request: &RenderPreviewRequest) -> (r: String)
    ensures
        r@ == sha256_hex(
            key_material(
                request.source@,
                backend_name(requested_backend(*request)),
                view_name(requested_view(*request)),
                wants_mesh(*request),
            ),
        ),
{
    let view = match &request.view {
        Some(ViewMode::TwoD) => "2d",
        _ => "3d",
    };
    let backend = match &request.backend {
        Some(BackendType::Manifold) => "manifold",
        Some(BackendType::Cgal) => "cgal",
        _ => "auto",
    };
    let render_mesh = match request.render_mesh {
        Some(b) => b,
        None => false,
    };
    RenderCache::generate_key(request.source.as_str(), backend, view, render_mesh)
}

/// The kind of output filed under a name in the cache.
pub fn kind_of_name(name: &str) -> (r: RenderKind)
    ensures
        r == kind_named(name@),
{
    if str_eq(name, "mesh") {
        RenderKind::Mesh
    } else if str_eq(name, "svg") {
        RenderKind::Svg
    } else {
        RenderKind::Png
    }
}

/// The name under which a kind of output is filed in the cache.
pub fn name_of_kind(kind: &RenderKind) -> (r: String)
    ensures
        r@ == kind_name(*kind),
{
    match kind {
        RenderKind::Mesh => "mesh".to_string(),
        RenderKind::Png => "png".to_string(),
        RenderKind::Svg => "svg".to_string(),
    }
}

/// The kind of output and the file name of a preview.
pub fn preview_output(request: &RenderPreviewRequest, cache_key: &str) -> (r: (RenderKind, String))
    requires
        cache_key@.len() >= 16,
    ensures
        r.0 == preview_kind(requested_view(*request), wants_mesh(*request)),
        r.1@ == preview_file_name(r.0, cache_key@),
{
    let mesh = match request.render_mesh {
        Some(b) => b,
        None => false,
    };
    let kind = match &request.view {
        Some(ViewMode::TwoD) => RenderKind::Svg,
        _ => if mesh {
            RenderKind::Mesh
        } else {
            RenderKind::Png
        },
    };
    let key = to_chars(cache_key);
    let mut out: Vec<char> = Vec::new();
    push_str(&mut out, "render_");
    crate::text::append_range(&mut out, &key, 0, 16);
    push_str(&mut out, ".");
    match kind {
        RenderKind::Mesh => push_str(&mut out, "stl"),
        RenderKind::Png => push_str(&mut out, "png"),
        RenderKind::Svg => push_str(&mut out, "svg"),
    }
    assert(out@ =~= preview_file_name(kind, cache_key@));
    (kind, string_of(&out, 0, out.len()))
}

/// Appends the flag that selects a backend, where one is to be given.
fn push_backend_flag(args: &mut Vec<String>, backend: &Option<BackendType>)
    ensures
        texts(final(args)@) == texts(old(args)@) + backend_flag(*backend),
{
    match backend {
        Some(BackendType::Manifold) => {
            args.push("--backend=manifold".to_string());
            assert(texts(args@) =~= texts(old(args)@) + backend_flag(*backend));
        },
        Some(BackendType::Cgal) => {
            args.push("--backend=cgal".to_string());
            assert(texts(args@) =~= texts(old(args)@) + backend_flag(*backend));
        },
        _ => {
            assert(texts(args@) =~= texts(old(args)@) + backend_flag(*backend));
        },
    }
}

/// The build tool's arguments for a preview.
pub fn preview_args(out_path: &str, scad_path: &str, request: &RenderPreviewRequest) -> (r: Vec<
    String,
>)
    ensures
        texts(r@) == preview_arguments(out_path@, scad_path@, *request),
{
    let mut args: Vec<String> = Vec::new();
    args.push("-o".to_string());
    args.push(out_path.to_string());
    args.push(scad_path.to_string());
    assert(texts(args@) =~= seq!["-o"@, out_path@, scad_path@]);
    push_backend_flag(&mut args, &request.backend);
    let ghost before = args@;
    let mesh = match request.render_mesh {
        Some(b) => b,
        None => false,
    };
    let ghost flags = image_flags(requested_view(*request), wants_mesh(*request), request.size);
    if !mesh {
        match &request.view {
            Some(ViewMode::TwoD) => {
                assert(texts(args@) =~= texts(before) + flags);
            },
            _ => {
                let size = match &request.size {
                    Some(size) => {
                        let mut out: Vec<char> = Vec::new();
                        push_str(&mut out, "--imgsize=");
                        push_decimal(&mut out, size.w as u64);
                        push_str(&mut out, ",");
                        push_decimal(&mut out, size.h as u64);
                        assert(out@ =~= "--imgsize="@ + decimal(size.w as nat) + ","@ + decimal(
                            size.h as nat,
                        ));
                        string_of(&out, 0, out.len())
                    },
                    None => "--imgsize=800,600".to_string(),
                };
                args.push(size);
                args.push("--preview".to_string());
                assert(requested_view(*request) is ThreeD);
                assert(flags.len() == 2);
                assert(flags[0] == size@);
                assert(texts(args@) =~= texts(before) + flags);
            },
        }
    } else {
        assert(texts(args@) =~= texts(before) + flags);
    }
    args
}

/// Checks that the output path of an export ends in the extension of its
/// format.
pub fn check_export_path(request: &RenderExactRequest) -> (r: Result<(), String>)
    ensures
        match r {
            Ok(_) => has_suffix(request.out_path@, "."@ + extension(request.format)),
            Err(e) => !has_suffix(request.out_path@, "."@ + extension(request.format)) && e@
                == "Output path must end with ."@ + extension(request.format)
                + " for this format"@,
        },
{
    let mut suffix: Vec<char> = Vec::new();
    push_str(&mut suffix, ".");
    push_extension(&mut suffix, &request.format);
    if ends_with(&to_chars(request.out_path.as_str()), &suffix) {
        Ok(())
    } else {
        let mut out: Vec<char> = Vec::new();
        push_str(&mut out, "Output path must end with .");
        push_extension(&mut out, &request.format);
        push_str(&mut out, " for this format");
        Err(string_of(&out, 0, out.len()))
    }
}

/// Appends the file extension of an export format.
fn push_extension(out: &mut Vec<char>, format: &ExportFormat)
    ensures
        final(out)@ == old(out)@ + extension(*format),
{
    match format {
        ExportFormat::Stl => push_str(out, "stl"),
        ExportFormat::Obj => push_str(out, "obj"),
        ExportFormat::Amf => push_str(out, "amf"),
        ExportFormat::ThreeMf => push_str(out, "3mf"),
        ExportFormat::Png => push_str(out, "png"),
        ExportFormat::Svg => push_str(out, "svg"),
        ExportFormat::Dxf => push_str(out, "dxf"),
    }
}

/// Appends the name of an export format in capitals.
fn push_format_label(out: &mut Vec<char>, format: &ExportFormat)
    ensures
        final(out)@ == old(out)@ + format_label(*format),
{
    match format {
        ExportFormat::Stl => push_str(out, "STL"),
        ExportFormat::Obj => push_str(out, "OBJ"),
        ExportFormat::Amf => push_str(out, "AMF"),
        ExportFormat::ThreeMf => push_str(out, "3MF"),
        ExportFormat::Png => push_str(out, "PNG"),
        ExportFormat::Svg => push_str(out, "SVG"),
        ExportFormat::Dxf => push_str(out, "DXF"),
    }
}

/// The build tool's arguments for an export.
pub fn export_args(scad_path: &str, request: &RenderExactRequest) -> (r: Vec<String>)
    ensures
        texts(r@) == export_arguments(scad_path@, *request),
{
    let mut args: Vec<String> = Vec::new();
    args.push("-o".to_string());
    args.push(request.out_path.clone());
    args.push(scad_path.to_string());
    assert(texts(args@) =~= seq!["-o"@, request.out_path@, scad_path@]);
    push_backend_flag(&mut args, &request.backend);
    let ghost before = args@;
    if matches!(request.format, ExportFormat::Png) {
        args.push("--imgsize=1920,1440".to_string());
        args.push("--preview".to_string());
        assert(texts(args@) =~= texts(before) + seq!["--imgsize=1920,1440"@, "--preview"@]);
    } else {
        assert(texts(args@) =~= texts(before) + Seq::<Seq<char>>::empty());
    }
    args
}

/// The message that lists the errors among `diagnostics`, if there is any.
pub fn summarize_errors(diagnostics: &Vec<Diagnostic>) -> (r: Option<String>)
    ensures
        match r {
            Some(message) => has_errors(diagnostic_views(diagnostics@)) && message@
                == error_summary(diagnostic_views(diagnostics@)),
            None => !has_errors(diagnostic_views(diagnostics@)),
        },
{
    let ghost views = diagnostic_views(diagnostics@);
    let mut out: Vec<char> = Vec::new();
    push_str(&mut out, "OpenSCAD failed to render due to errors:\n\n");
    let ghost head = out@;
    let mut found = false;
    let mut i: usize = 0;
    while i < diagnostics.len()
        invariant
            views == diagnostic_views(diagnostics@),
            i <= diagnostics.len(),
            out@ == head + error_lines(views.take(i as int)),
            found == has_errors(views.take(i as int)),
        decreases diagnostics.len() - i,
    {
        let ghost prefix = views.take(i as int);
        let ghost next = views.take(i + 1);
        assert(next.drop_last() =~= prefix);
        assert(next.last() == diagnostics@[i as int]@);
        let d = &diagnostics[i];
        if d.severity.is_error() {
            found = true;
            if let Some(line) = d.line {
                push_str(&mut out, "Line ");
                push_signed_decimal(&mut out, line as i64);
                push_str(&mut out, ": ");
            }
            push_str(&mut out, d.message.as_str());
            push_str(&mut out, "\n");
            assert(next[i as int].severity == DiagnosticSeverity::Error);
        } else {
            proof {
                if has_errors(next) {
                    let k = choose|k: int|
                        0 <= k < next.len() && (#[trigger] next[k]).severity
                            == DiagnosticSeverity::Error;
                    assert(prefix[k] == next[k]);
                }
            }
        }
        proof {
            if has_errors(prefix) {
                let k = choose|k: int|
                    0 <= k < prefix.len() && (#[trigger] prefix[k]).severity
                        == DiagnosticSeverity::Error;
                assert(next[k] == prefix[k]);
            }
            assert(out@ =~= head + error_lines(next));
        }
        i += 1;
    }
    assert(views.take(diagnostics.len() as int) =~= views);
    if found {
        Some(string_of(&out, 0, out.len()))
    } else {
        None
    }
}

/// Appends the build tool's output as it is quoted in a message.
fn push_excerpt(out: &mut Vec<char>, stderr: &str, note: &str)
    ensures
        final(out)@ == old(out)@ + output_excerpt(stderr@, note@),
{
    broadcast use {encode_utf8_decode_utf8, encode_utf8_valid_utf8};

    if stderr.as_bytes().len() > 1000 {
        let mut cut: usize = 1000;
        while cut > 0 && !stderr.is_char_boundary(cut)
            invariant
                cut <= 1000,
                cut_point(stderr.spec_bytes(), 1000) == cut_point(stderr.spec_bytes(), cut as int),
            decreases cut,
        {
            cut -= 1;
        }
        assert(is_char_boundary(stderr.spec_bytes(), cut as int));
        assert(cut_point(stderr.spec_bytes(), 1000) == cut);
        let (head, _) = stderr.split_at(cut);
        assert(head@ == decode_utf8(encode_utf8(head@)));
        push_str(out, head);
        push_str(out, note);
        assert(out@ =~= old(out)@ + output_excerpt(stderr@, note@));
    } else {
        push_str(out, stderr);
    }
}

/// The message for a preview that left no output: the errors that were
/// reported, or else what the build tool's output suggests.
pub fn preview_failure_message(view: &ViewMode, stderr: &str, diagnostics: &Vec<Diagnostic>) -> (r:
    String)
    ensures
        r@ == preview_failure(*view, stderr@, diagnostic_views(diagnostics@)),
{
    if let Some(message) = summarize_errors(diagnostics) {
        return message;
    }
    let text = to_chars(stderr);
    let flat = matches!(view, ViewMode::TwoD);
    if flat && (contains_str(&text, "3D object") || contains_str(&text, "not a 2D object")) {
        "Cannot render 3D objects in 2D mode. Switch to 3D mode or use a 2D shape (e.g., square, circle, polygon).".to_string()
    } else if !flat && (contains_str(&text, "not a 3D object") || contains_str(
        &text,
        "2D object",
    )) {
        "Cannot render 2D objects in 3D mode. Switch to 2D mode or use a 3D shape (e.g., cube, sphere, cylinder).".to_string()
    } else if contains_str(&text, "WARNING: Can't convert") {
        "OpenSCAD cannot convert this geometry. Try switching between 2D and 3D modes.".to_string()
    } else {
        let mut out: Vec<char> = Vec::new();
        push_str(
            &mut out,
            "OpenSCAD failed to create output file.\n\nThis usually means the geometry doesn't match the current mode (2D/3D).\n\nOpenSCAD output:\n",
        );
        push_excerpt(&mut out, stderr, "...\n\n(Output truncated. Full output in console.)");
        string_of(&out, 0, out.len())
    }
}

/// The message for an export that left no output: the errors that were
/// reported, or else what the build tool's output suggests.
pub fn export_failure_message(format: &ExportFormat, stderr: &str, diagnostics: &Vec<Diagnostic>)
    -> (r: String)
    ensures
        r@ == export_failure(*format, stderr@, diagnostic_views(diagnostics@)),
{
    if let Some(message) = summarize_errors(diagnostics) {
        return message;
    }
    let text = to_chars(stderr);
    let solid = matches!(
        format,
        ExportFormat::Stl | ExportFormat::Obj | ExportFormat::Amf | ExportFormat::ThreeMf
    );
    let flat = matches!(format, ExportFormat::Svg | ExportFormat::Dxf);
    let mut out: Vec<char> = Vec::new();
    if flat && (contains_str(&text, "3D object") || contains_str(&text, "not a 2D object")) {
        push_str(&mut out, "Cannot export 3D objects as ");
        push_format_label(&mut out, format);
        push_str(
            &mut out,
            ". Use a 2D shape (e.g., square, circle, polygon) or choose a 3D export format (STL, OBJ, etc.).",
        );
    } else if solid && (contains_str(&text, "not a 3D object") || contains_str(
        &text,
        "2D object",
    )) {
        push_str(&mut out, "Cannot export 2D objects as ");
        push_format_label(&mut out, format);
        push_str(
            &mut out,
            ". Use a 3D shape (e.g., cube, sphere, cylinder) or choose a 2D export format (SVG, DXF).",
        );
    } else {
        push_str(&mut out, "OpenSCAD failed to create output file.\n\nOpenSCAD output:\n");
        push_excerpt(&mut out, stderr, "...\n\n(Output truncated)");
    }
    string_of(&out, 0, out.len())
}

/// The answer to a preview request from an entry of the cache; `path_text`
/// is the entry's output path as text.
pub fn cached_preview(entry: &CacheEntry, path_text: String) -> (r: RenderPreviewResponse)
    ensures
        r.kind == kind_named(entry.kind@),
        r.path == path_text,
        diagnostic_views(r.diagnostics@) == entry@.diagnostics,
{
    RenderPreviewResponse {
        kind: kind_of_name(entry.kind.as_str()),
        path: path_text,
        diagnostics: clone_diagnostics(&entry.diagnostics),
    }
}

/// The document shows the outcome of a preview of `source` that lies at
/// `out_text`, with the diagnostics `ds`.
pub open spec fn previewed(
    after: EditorState,
    before: EditorState,
    source: Seq<char>,
    out_text: Seq<char>,
    ds: Seq<DiagnosticView>,
) -> bool {
    &&& after.current_code@ == source
    &&& diagnostic_views(after.diagnostics@) == ds
    &&& after.last_preview_path@ == out_text
    &&& after.openscad_path == before.openscad_path
    &&& after.working_dir == before.working_dir
}

/// The document after a preview that left no output: as before, but for
/// the diagnostics where the build reported errors.
pub open spec fn preview_failed(after: EditorState, before: EditorState, ds: Seq<DiagnosticView>)
    -> bool {
    &&& after.current_code == before.current_code
    &&& after.last_preview_path == before.last_preview_path
    &&& after.openscad_path == before.openscad_path
    &&& after.working_dir == before.working_dir
    &&& if has_errors(ds) {
        diagnostic_views(after.diagnostics@) == ds
    } else {
        after.diagnostics == before.diagnostics
    }
}

/// Takes in what the build tool left of a preview. `stderr` is what it
/// reported, `out_path` where its output was to lie and `out_text` that
/// path as text. Where output was left, it is filed in the cache under
/// `cache_key`, the document takes the source and the diagnostics of the
/// build and remembers the output, and the answer names the output. Where
/// none was left, the cache stays as it is, the answer is the message for
/// the failure, and the document takes the diagnostics only if they hold an
/// error.
pub fn finish_preview(
    state: &mut EditorState,
    cache: &mut RenderCache,
    request: &RenderPreviewRequest,
    cache_key: String,
    kind: RenderKind,
    out_path: PathBuf,
    out_text: String,
    stderr: &str,
    output_missing: bool,
) -> (r: Result<RenderPreviewResponse, String>)
    requires
        old(cache).wf(),
    ensures
        final(cache).wf(),
        output_missing ==> {
            &&& r matches Err(message) && message@ == preview_failure(
                requested_view(*request),
                stderr@,
                parsed(stderr@),
            )
            &&& final(cache)@ == old(cache)@
            &&& preview_failed(*final(state), *old(state), parsed(stderr@))
        },
        !output_missing ==> {
            &&& r matches Ok(response) && response.kind == kind && response.path@ == out_text@
                && diagnostic_views(response.diagnostics@) == parsed(stderr@)
            &&& previewed(*final(state), *old(state), request.source@, out_text@, parsed(stderr@))
            &&& exists|timestamp: u64| #[trigger]
                filed(
                    old(cache)@,
                    final(cache)@,
                    cache_key@,
                    out_path,
                    kind_name(kind),
                    parsed(stderr@),
                    timestamp,
                )
        },
{
    let diagnostics = parse_openscad_stderr(stderr);
    if output_missing {
        let message = match summarize_errors(&diagnostics) {
            Some(message) => {
                state.diagnostics = diagnostics;
                message
            },
            None => {
                let view = match &request.view {
                    Some(ViewMode::TwoD) => ViewMode::TwoD,
                    _ => ViewMode::ThreeD,
                };
                preview_failure_message(&view, stderr, &diagnostics)
            },
        };
        return Err(message);
    }
    cache.set(cache_key, out_path, name_of_kind(&kind), clone_diagnostics(&diagnostics));
    state.current_code = request.source.clone();
    state.diagnostics = clone_diagnostics(&diagnostics);
    state.last_preview_path = out_text.clone();
    Ok(RenderPreviewResponse { kind, path: out_text, diagnostics })
}

/// The build tool's arguments for a screenshot from one side: output and
/// input file, then the camera's place.
pub fn screenshot_args(out_path: &str, scad_path: &str, view: &CameraView) -> (r: Vec<String>)
    ensures
        texts(r@) == seq![
            "-o"@,
            out_path@,
            scad_path@,
            "--camera=0,0,0,"@ + view.rotation(),
            "--viewall"@,
            "--autocenter"@,
        ],
{
    let camera = view.to_camera_args();
    let mut args: Vec<String> = Vec::new();
    args.push("-o".to_string());
    args.push(out_path.to_string());
    args.push(scad_path.to_string());
    args.push(camera[0].clone());
    args.push(camera[1].clone());
    args.push(camera[2].clone());
    assert(texts(args@).len() == 6);
    assert(texts(args@)[3] == camera@[0]@);
    assert(texts(args@)[4] == camera@[1]@);
    assert(texts(args@)[5] == camera@[2]@);
    assert(texts(args@) =~= seq![
        "-o"@,
        out_path@,
        scad_path@,
        "--camera=0,0,0,"@ + view.rotation(),
        "--viewall"@,
        "--autocenter"@,
    ]);
    args
}

} // verus!
