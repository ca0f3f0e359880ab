//! Reading the build tool's diagnostic output: one diagnostic for each line
//! that starts with a severity prefix, with the line number it mentions.

use vstd::prelude::*;
use vstd::string::*;
use crate::text::{
    ascii_lowercase, parse_i32, parse_int, string_of, to_ascii_lower, to_chars, trim_range,
    trimmed,
};
use crate::types::{Diagnostic, DiagnosticSeverity, DiagnosticView, diagnostic_views};

verus! {

/// The groups that a regular expression captures in the leftmost match it
/// finds in a text: the whole match first, then each group in the order of
/// its opening bracket, `None` for a group that took no part. `None` where
/// the pattern is no valid expression or matches nowhere.
pub uninterp spec fn regex_captures(pattern: Seq<char>, text: Seq<char>) -> Option<
    Seq<Option<Seq<char>>>,
>;

/// Captured groups as sequences of characters.
pub open spec fn group_views(groups: Option<Vec<Option<String>>>) -> Option<
    Seq<Option<Seq<char>>>,
> {
    match groups {
        Some(v) => Some(
            v@.map_values(
                |g: Option<String>|
                    match g {
                        Some(s) => Some(s@),
                        None => None,
                    },
            ),
        ),
        None => None,
    }
}

/// `regex::Regex::new` on the pattern, then `Regex::captures` on the text:
/// the text of every group of the leftmost match, as `Captures::iter`
/// hands them out.
#[verifier::external_body]
fn captures(pattern: &str, text: &str) -> (r: Option<Vec<Option<String>>>)
    ensures
        group_views(r) == regex_captures(pattern@, text@),
{
    let re = regex::Regex::new(pattern).ok()?;
    let found = re.captures(text)?;
    let mut groups: Vec<Option<String>> = Vec::new();
    for group in found.iter() {
        groups.push(group.map(|m| m.as_str().to_string()));
    }
    Some(groups)
}

/// The severity prefix at the start of a line, in any case, and the message
/// behind it.
pub open spec fn prefix_pattern() -> Seq<char> {
    "(?i)^(ERROR|WARNING|ECHO):\\s*(.*)"@
}

/// The word `line`, white space and a run of digits.
pub open spec fn line_number_pattern() -> Seq<char> {
    "line\\s+(\\d+)"@
}

/// The severity that a prefix word stands for, in any case.
pub open spec fn severity_of(word: Seq<char>) -> Option<DiagnosticSeverity> {
    let lower = ascii_lowercase(word);
    if lower == "error"@ {
        Some(DiagnosticSeverity::Error)
    } else if lower == "warning"@ {
        Some(DiagnosticSeverity::Warning)
    } else if lower == "echo"@ {
        Some(DiagnosticSeverity::Info)
    } else {
        None
    }
}

/// The text of group `i` of a match, where the group took part.
pub open spec fn group(groups: Seq<Option<Seq<char>>>, i: int) -> Option<Seq<char>> {
    if 0 <= i < groups.len() {
        groups[i]
    } else {
        None
    }
}

/// Severity and message of a line, from the groups that the prefix pattern
/// captured in it: the severity that the first group names, and the second
/// group as the message, empty where it took no part.
pub open spec fn classified(groups: Option<Seq<Option<Seq<char>>>>) -> Option<
    (DiagnosticSeverity, Seq<char>),
> {
    match groups {
        Some(g) => match group(g, 1) {
            Some(word) => match severity_of(word) {
                Some(severity) => Some(
                    (
                        severity,
                        match group(g, 2) {
                            Some(message) => message,
                            None => Seq::empty(),
                        },
                    ),
                ),
                None => None,
            },
            None => None,
        },
        None => None,
    }
}

/// The line number of a message, from the groups that the line-number
/// pattern captured in it: the first group read as a 32-bit integer.
pub open spec fn line_number(groups: Option<Seq<Option<Seq<char>>>>) -> Option<i32> {
    match groups {
        Some(g) => match group(g, 1) {
            Some(digits) => parse_i32(digits),
            None => None,
        },
        None => None,
    }
}

/// The diagnostic that a line of output stands for, if it stands for one.
/// The line is taken without white space around it and kept whole as the
/// message. A column is never read.
pub open spec fn diagnostic_of_line(line: Seq<char>) -> Option<DiagnosticView> {
    if line.len() == 0 {
        None
    } else {
        match classified(regex_captures(prefix_pattern(), line)) {
            Some((severity, message)) => Some(
                DiagnosticView {
                    severity,
                    line: line_number(regex_captures(line_number_pattern(), message)),
                    col: None,
                    message: line,
                },
            ),
            None => None,
        }
    }
}

/// Length of the first line of `text`: the number of characters before its
/// first line feed.
pub open spec fn line_end(text: Seq<char>) -> int
    decreases text.len(),
{
    if text.len() == 0 || text[0] == '\n' {
        0
    } else {
        1 + line_end(text.drop_first())
    }
}

/// The diagnostics of a text of output: those of its lines, in order. Lines
/// end at line feeds and are read without the white space around them; a
/// line that is empty then, or that starts with no severity prefix, gives
/// none.
pub open spec fn parsed(text: Seq<char>) -> Seq<DiagnosticView>
    decreases text.len(),
{
    let n = line_end(text);
    let here = match diagnostic_of_line(trimmed(text.take(n))) {
        Some(d) => seq![d],
        None => Seq::empty(),
    };
    if 0 <= n < text.len() {
        here + parsed(text.skip(n + 1))
    } else {
        here
    }
}

/// The severity that a prefix word stands for, in any case.
pub fn severity_of_word(word: &str) -> (r: Option<DiagnosticSeverity>)
    ensures
        r == severity_of(word@),
{
    let chars = to_chars(word);
    let mut lower: Vec<char> = Vec::new();
    let mut i: usize = 0;
    while i < chars.len()
        invariant
            i <= chars.len(),
            lower@ == ascii_lowercase(chars@).take(i as int),
        decreases chars.len() - i,
    {
        lower.push(to_ascii_lower(chars[i]));
        i += 1;
        assert(lower@ =~= ascii_lowercase(chars@).take(i as int));
    }
    assert(ascii_lowercase(chars@).take(chars.len() as int) =~= ascii_lowercase(chars@));
    let lower = string_of(&lower, 0, lower.len());
    assert(lower@ =~= ascii_lowercase(word@));
    if crate::text::str_eq(lower.as_str(), "error") {
        Some(DiagnosticSeverity::Error)
    } else if crate::text::str_eq(lower.as_str(), "warning") {
        Some(DiagnosticSeverity::Warning)
    } else if crate::text::str_eq(lower.as_str(), "echo") {
        Some(DiagnosticSeverity::Info)
    } else {
        None
    }
}

/// Severity and message of a line, from the groups that the prefix pattern
/// captured in it.
pub fn classify(groups: &Option<Vec<Option<String>>>) -> (r: Option<(DiagnosticSeverity, String)>)
    ensures
        match r {
            Some((severity, message)) => classified(group_views(*groups)) == Some(
                (severity, message@),
            ),
            None => classified(group_views(*groups)) is None,
        },
{
    let g = match groups {
        Some(g) => g,
        None => { return None; },
    };
    if g.len() < 2 {
        return None;
    }
    let word = match &g[1] {
        Some(word) => word,
        None => { return None; },
    };
    let severity = match severity_of_word(word.as_str()) {
        Some(severity) => severity,
        None => { return None; },
    };
    let message = if g.len() > 2 {
        match &g[2] {
            Some(message) => message.clone(),
            None => String::new(),
        }
    } else {
        String::new()
    };
    Some((severity, message))
}

/// The line number of a message, from the groups that the line-number
/// pattern captured in it.
pub fn read_line_number(groups: &Option<Vec<Option<String>>>) -> (r: Option<i32>)
    ensures
        r == line_number(group_views(*groups)),
{
    let g = match groups {
        Some(g) => g,
        None => { return None; },
    };
    if g.len() < 2 {
        return None;
    }
    match &g[1] {
        Some(digits) => parse_int(&to_chars(digits.as_str())),
        None => None,
    }
}

/// The diagnostic that a line of output stands for, if it stands for one.
pub fn parse_line(line: &str) -> (r: Option<Diagnostic>)
    ensures
        match r {
            Some(d) => diagnostic_of_line(line@) == Some(d@),
            None => diagnostic_of_line(line@) is None,
        },
{
    if line.unicode_len() == 0 {
        return None;
    }
    let prefix = captures("(?i)^(ERROR|WARNING|ECHO):\\s*(.*)", line);
    let (severity, message) = match classify(&prefix) {
        Some(found) => found,
        None => { return None; },
    };
    let number = captures("line\\s+(\\d+)", message.as_str());
    Some(
        Diagnostic {
            severity,
            line: read_line_number(&number),
            col: None,
            message: line.to_string(),
        },
    )
}

/// The first line of `text` ends where its first line feed stands, or
/// where the text ends.
pub proof fn lemma_line_end(text: Seq<char>, n: int)
    requires
        0 <= n <= text.len(),
        forall|j: int| 0 <= j < n ==> text[j] != '\n',
        n == text.len() || text[n] == '\n',
    ensures
        line_end(text) == n,
    decreases n,
{
    if n > 0 {
        lemma_line_end(text.drop_first(), n - 1);
    }
}

/// Reads the build tool's diagnostic output into structured diagnostics.
pub fn parse_openscad_stderr(stderr: &str) -> (r: Vec<Diagnostic>)
    ensures
        diagnostic_views(r@) == parsed(stderr@),
{
    let chars = to_chars(stderr);
    let mut diagnostics: Vec<Diagnostic> = Vec::new();
    let mut start: usize = 0;
    let mut done = false;
    proof {
        assert(chars@.skip(0) =~= stderr@);
        assert(diagnostic_views(diagnostics@) + parsed(stderr@) =~= parsed(stderr@));
    }
    while !done
        invariant
            chars@ == stderr@,
            start <= chars.len(),
            !done ==> parsed(stderr@) == diagnostic_views(diagnostics@) + parsed(
                chars@.skip(start as int),
            ),
            done ==> parsed(stderr@) == diagnostic_views(diagnostics@),
        decreases chars.len() - start + if done { 0int } else { 1int },
    {
        let mut end: usize = start;
        while end < chars.len() && chars[end] != '\n'
            invariant
                start <= end <= chars.len(),
                forall|j: int| start <= j < end ==> chars@[j] != '\n',
            decreases chars.len() - end,
        {
            end += 1;
        }
        let ghost rest = chars@.skip(start as int);
        proof {
            assert forall|j: int| 0 <= j < end - start implies rest[j] != '\n' by {
                assert(rest[j] == chars@[start + j]);
            }
            lemma_line_end(rest, end - start);
            assert(rest.take(end - start) =~= chars@.subrange(start as int, end as int));
        }
        let (a, b) = trim_range(&chars, start, end);
        let line = string_of(&chars, a, b);
        let ghost before = diagnostics@;
        match parse_line(line.as_str()) {
            Some(d) => {
                diagnostics.push(d);
                assert(diagnostic_views(diagnostics@) =~= diagnostic_views(before) + seq![d@]);
            },
            None => {
                assert(diagnostic_views(before) + Seq::<DiagnosticView>::empty()
                    =~= diagnostic_views(before));
            },
        }
        if end < chars.len() {
            assert(rest.skip(end - start + 1) =~= chars@.skip(end + 1));
            start = end + 1;
        } else {
            done = true;
        }
    }
    diagnostics
}

} // verus!
