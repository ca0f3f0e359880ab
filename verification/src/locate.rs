//! Finding the build tool: reading the answer of the system's path search,
//! and the places where the tool is usually installed.

use vstd::prelude::*;
use vstd::string::*;
use crate::text::{
    ends_with, has_prefix, has_suffix, starts_with, string_of, to_chars, trim_range, trimmed,
};

verus! {

/// The kinds of system that the tool is looked for on.
#[derive(Debug, PartialEq, Eq, Structural, Clone, Copy)]
pub enum Platform {
    Windows,
    MacOs,
    Other,
}

/// The name of the tool's executable.
pub fn exe_name(platform: Platform) -> (r: String)
    ensures
        r@ == if platform is Windows {
            "openscad.exe"@
        } else {
            "openscad"@
        },
{
    match platform {
        Platform::Windows => "openscad.exe".to_string(),
        _ => "openscad".to_string(),
    }
}

/// The system command that searches the path for an executable.
pub fn finder_command(platform: Platform) -> (r: String)
    ensures
        r@ == if platform is Windows {
            "where"@
        } else {
            "which"@
        },
{
    match platform {
        Platform::Windows => "where".to_string(),
        _ => "which".to_string(),
    }
}

/// Length of the first line of `text`: up to its first line feed, without
/// a carriage return that stands right before it.
pub open spec fn first_line_len(text: Seq<char>) -> int {
    let n = crate::parser::line_end(text);
    if 0 < n < text.len() && text[n - 1] == '\r' {
        n - 1
    } else {
        n
    }
}

/// The first line of `text` without the white space around the text.
pub open spec fn first_line(text: Seq<char>) -> Seq<char> {
    trimmed(text).take(first_line_len(trimmed(text)))
}

/// The path that a search answered with: the first line of its output,
/// empty where it printed nothing.
pub fn first_output_line(stdout: &str) -> (r: String)
    ensures
        r@ == first_line(stdout@),
{
    let v = to_chars(stdout);
    let (a, b) = trim_range(&v, 0, v.len());
    assert(v@.subrange(0, v.len() as int) =~= v@);
    let ghost body = v@.subrange(a as int, b as int);
    let mut end: usize = a;
    while end < b && v[end] != '\n'
        invariant
            a <= end <= b <= v.len(),
            forall|j: int| a <= j < end ==> v@[j] != '\n',
        decreases b - end,
    {
        end += 1;
    }
    proof {
        assert forall|j: int| 0 <= j < end - a implies body[j] != '\n' by {
            assert(body[j] == v@[a + j]);
        }
        if end < b {
            assert(body[end - a] == v@[end as int]);
        }
        crate::parser::lemma_line_end(body, end - a);
    }
    let stop = if end > a && end < b && v[end - 1] == '\r' { end - 1 } else { end };
    proof {
        if end > a {
            assert(body[end - a - 1] == v@[end - 1]);
        }
        assert(v@.subrange(a as int, stop as int) =~= body.take(first_line_len(body)));
    }
    string_of(&v, a, stop)
}

/// The message for a path that the user gave and that leads nowhere.
pub fn missing_path_message(path: &str) -> (r: String)
    ensures
        r@ == "Provided path does not exist: "@ + path@,
{
    "Provided path does not exist: ".to_string().concat(path)
}

/// The places where the tool is usually installed on a platform, in the
/// order in which they are tried.
pub open spec fn usual_places(platform: Platform) -> Seq<Seq<char>> {
    match platform {
        Platform::MacOs => seq![
            "/Applications/OpenSCAD.app/Contents/MacOS/OpenSCAD"@,
            "/Applications/OpenSCAD-2021.01.app/Contents/MacOS/OpenSCAD"@,
            "/Applications/OpenSCAD-2024.12.app/Contents/MacOS/OpenSCAD"@,
            "/Applications/OpenSCAD-nightly.app/Contents/MacOS/OpenSCAD"@,
            "/opt/homebrew/bin/openscad"@,
            "/usr/local/bin/openscad"@,
        ],
        Platform::Windows => seq![
            "C:\\Program Files\\OpenSCAD\\openscad.exe"@,
            "C:\\Program Files (x86)\\OpenSCAD\\openscad.exe"@,
        ],
        Platform::Other => seq!["/usr/bin/openscad"@, "/usr/local/bin/openscad"@],
    }
}

/// The places where the tool is usually installed on a platform.
pub fn install_candidates(platform: Platform) -> (r: Vec<String>)
    ensures
        crate::render::texts(r@) == usual_places(platform),
{
    let mut places: Vec<String> = Vec::new();
    match platform {
        Platform::MacOs => {
            places.push("/Applications/OpenSCAD.app/Contents/MacOS/OpenSCAD".to_string());
            places.push("/Applications/OpenSCAD-2021.01.app/Contents/MacOS/OpenSCAD".to_string());
            places.push("/Applications/OpenSCAD-2024.12.app/Contents/MacOS/OpenSCAD".to_string());
            places.push("/Applications/OpenSCAD-nightly.app/Contents/MacOS/OpenSCAD".to_string());
            places.push("/opt/homebrew/bin/openscad".to_string());
            places.push("/usr/local/bin/openscad".to_string());
        },
        Platform::Windows => {
            places.push("C:\\Program Files\\OpenSCAD\\openscad.exe".to_string());
            places.push("C:\\Program Files (x86)\\OpenSCAD\\openscad.exe".to_string());
        },
        Platform::Other => {
            places.push("/usr/bin/openscad".to_string());
            places.push("/usr/local/bin/openscad".to_string());
        },
    }
    assert(crate::render::texts(places@) =~= usual_places(platform));
    places
}

/// Whether a directory entry is named like an application bundle of the
/// tool.
pub fn is_app_bundle(name: &str) -> (r: bool)
    ensures
        r == (has_prefix(name@, "OpenSCAD"@) && has_suffix(name@, ".app"@)),
{
    let v = to_chars(name);
    starts_with(&v, "OpenSCAD") && ends_with(&v, &to_chars(".app"))
}

/// The tool's version as it reports it: the first line of its output, or
/// `unknown` where it printed nothing.
pub fn version_line(stdout: &str) -> (r: String)
    ensures
        r@ == if stdout@.len() == 0 {
            "unknown"@
        } else {
            stdout@.take(first_line_len(stdout@))
        },
{
    let v = to_chars(stdout);
    if v.len() == 0 {
        return "unknown".to_string();
    }
    let mut end: usize = 0;
    while end < v.len() && v[end] != '\n'
        invariant
            end <= v.len(),
            forall|j: int| 0 <= j < end ==> v@[j] != '\n',
        decreases v.len() - end,
    {
        end += 1;
    }
    proof {
        crate::parser::lemma_line_end(v@, end as int);
    }
    let stop = if end > 0 && end < v.len() && v[end - 1] == '\r' { end - 1 } else { end };
    assert(v@.subrange(0, stop as int) =~= v@.take(first_line_len(v@)));
    string_of(&v, 0, stop)
}

} // verus!
