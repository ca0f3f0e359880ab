//! Line diffs between two texts, and their rendering as unified-diff style
//! text with counts of added and removed lines.

use vstd::prelude::*;
use vstd::string::*;

verus! {

/// What a line of a diff does to the old text.
#[derive(Debug, PartialEq, Eq, Clone, Copy)]
pub enum DiffTag {
    Delete,
    Insert,
    Equal,
}

/// One line of a diff: its tag and its text, line ending included.
#[derive(Debug)]
pub struct DiffLine {
    pub tag: DiffTag,
    pub text: String,
}

pub ghost struct DiffLineView {
    pub tag: DiffTag,
    pub text: Seq<char>,
}

impl View for DiffLine {
    type V = DiffLineView;

    open spec fn view(&self) -> DiffLineView {
        DiffLineView { tag: self.tag, text: self.text@ }
    }
}

/// The views of a list of diff lines, in order.
pub open spec fn diff_line_views(lines: Seq<DiffLine>) -> Seq<DiffLineView> {
    lines.map_values(|l: DiffLine| l@)
}

/// The line diff that leads from `old` to `new`, as the diffing crate
/// computes it with its default settings.
pub uninterp spec fn line_changes(old: Seq<char>, new: Seq<char>) -> Seq<DiffLineView>;

/// `similar::TextDiff::from_lines` on the two texts, flattened by
/// `iter_all_changes`. Each change is handed out with its tag and with the
/// text that its `Display` impl writes: the line, and a line feed behind it
/// where the line has no line ending of its own. The diff is computed without
/// a deadline, so it depends on the two texts alone.
#[verifier::external_body]
pub(crate) fn diff_lines(old: &str, new: &str) -> (r: Vec<DiffLine>)
    ensures
        diff_line_views(r@) == line_changes(old@, new@),
{
    let diff = similar::TextDiff::from_lines(old, new);
    let mut out: Vec<DiffLine> = Vec::new();
    for change in diff.iter_all_changes() {
        let tag = match change.tag() {
            similar::ChangeTag::Delete => DiffTag::Delete,
            similar::ChangeTag::Insert => DiffTag::Insert,
            similar::ChangeTag::Equal => DiffTag::Equal,
        };
        out.push(DiffLine { tag, text: change.to_string() });
    }
    out
}

/// The character that marks a line of the given tag.
pub open spec fn marker(tag: DiffTag) -> char {
    match tag {
        DiffTag::Delete => '-',
        DiffTag::Insert => '+',
        DiffTag::Equal => ' ',
    }
}

/// The diff as text: every line behind its marker, in order.
pub open spec fn unified_text(lines: Seq<DiffLineView>) -> Seq<char>
    decreases lines.len(),
{
    if lines.len() == 0 {
        Seq::empty()
    } else {
        unified_text(lines.drop_last()) + seq![marker(lines.last().tag)] + lines.last().text
    }
}

/// Number of lines with the given tag.
pub open spec fn tag_count(lines: Seq<DiffLineView>, tag: DiffTag) -> nat
    decreases lines.len(),
{
    if lines.len() == 0 {
        0
    } else {
        tag_count(lines.drop_last(), tag) + if lines.last().tag == tag {
            1nat
        } else {
            0nat
        }
    }
}

/// A rendered diff: its text and the numbers of added and removed lines.
#[derive(Debug)]
pub struct DiffSummary {
    pub diff: String,
    pub added_lines: usize,
    pub removed_lines: usize,
}

/// Renders a line diff: the text with one marker per line, the number of
/// inserted lines and the number of deleted lines.
pub fn summarize(lines: &Vec<DiffLine>) -> (r: DiffSummary)
    ensures
        r.diff@ == unified_text(diff_line_views(lines@)),
        r.added_lines == tag_count(diff_line_views(lines@), DiffTag::Insert),
        r.removed_lines == tag_count(diff_line_views(lines@), DiffTag::Delete),
{
    let ghost views = diff_line_views(lines@);
    let mut diff = String::new();
    let mut added: usize = 0;
    let mut removed: usize = 0;
    let mut i: usize = 0;
    while i < lines.len()
        invariant
            views == diff_line_views(lines@),
            i <= lines.len(),
            added <= i,
            removed <= i,
            diff@ == unified_text(views.take(i as int)),
            added == tag_count(views.take(i as int), DiffTag::Insert),
            removed == tag_count(views.take(i as int), DiffTag::Delete),
        decreases lines.len() - i,
    {
        assert(views.take(i + 1).drop_last() =~= views.take(i as int));
        assert(views.take(i + 1).last() == lines@[i as int]@);
        let line = &lines[i];
        match line.tag {
            DiffTag::Delete => {
                diff.push('-');
                removed += 1;
            },
            DiffTag::Insert => {
                diff.push('+');
                added += 1;
            },
            DiffTag::Equal => {
                diff.push(' ');
            },
        }
        diff.append(line.text.as_str());
        i += 1;
    }
    assert(views.take(lines.len() as int) =~= views);
    DiffSummary { diff, added_lines: added, removed_lines: removed }
}

} // verus!
