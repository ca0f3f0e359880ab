//! Transactional edits of the document: validation of a proposed
//! substitution, and the pipeline that applies one only if the build tool
//! reports no more errors than before.

use vstd::prelude::*;
use vstd::string::*;
use crate::history::{index_of, EditorHistory, HistoryError, HistoryView};
use crate::text::{
    append_range, capped, contains, count_lines, count_matches, decimal, find_from, first_match,
    is_first_match_from, lemma_absent_iff_no_match, line_count,
    occurrence_count, push_decimal, push_str, replace_first, string_of, to_chars,
};
use crate::types::{
    clone_diagnostics, count_errors, diagnostic_views, error_count, ChangeType, CheckpointView,
    Diagnostic, EditorCheckpoint,
};

verus! {

/// The largest number of lines that a single edit may touch.
pub const MAX_LINES_CHANGED: usize = 120;

/// The document and what belongs to it: the current source, the diagnostics
/// of its last build, the last preview, the build tool and the directory in
/// which it runs.
pub struct EditorState {
    pub current_code: String,
    pub diagnostics: Vec<Diagnostic>,
    pub last_preview_path: String,
    pub openscad_path: String,
    pub working_dir: Option<String>,
}

impl Default for EditorState {
    fn default() -> (r: Self)
        ensures
            r.current_code@ == "// Type your OpenSCAD code here\ncube([10, 10, 10]);"@,
            r.diagnostics@.len() == 0,
            r.last_preview_path@.len() == 0,
            r.openscad_path@ == "openscad"@,
            r.working_dir is None,
    {
        EditorState {
            current_code: "// Type your OpenSCAD code here\ncube([10, 10, 10]);".to_string(),
            diagnostics: Vec::new(),
            last_preview_path: String::new(),
            openscad_path: "openscad".to_string(),
            working_dir: None,
        }
    }
}

/// Why a proposed substitution cannot be applied to a text.
#[derive(Debug, PartialEq, Eq, Structural, Clone, Copy)]
pub enum ValidationError {
    /// The old text is no substring of the document.
    NotFound,
    /// The old text occurs more than once, at `occurrences` offsets.
    NotUnique { occurrences: usize },
    /// The edit touches `lines_changed` lines, more than the ceiling.
    TooLarge { lines_changed: usize },
}

impl ValidationError {
    /// The error in words, for the author of the edit.
    pub open spec fn text(self) -> Seq<char> {
        match self {
            ValidationError::NotFound =>
                "The old_string was not found in the current code. Make sure you copy the exact text including whitespace."@,
            ValidationError::NotUnique { occurrences } => "The old_string appears "@ + decimal(
                occurrences as nat,
            )
                + " times in the code. It must be unique. Include more surrounding context to make it unique."@,
            ValidationError::TooLarge { lines_changed } => "Edit too large: "@ + decimal(
                lines_changed as nat,
            ) + " lines changed (max 120). Please break into smaller changes."@,
        }
    }

    /// The error in words, for the author of the edit.
    pub fn message(&self) -> (r: String)
        ensures
            r@ == self.text(),
    {
        let mut out: Vec<char> = Vec::new();
        match self {
            ValidationError::NotFound => {
                push_str(
                    &mut out,
                    "The old_string was not found in the current code. Make sure you copy the exact text including whitespace.",
                );
            },
            ValidationError::NotUnique { occurrences } => {
                push_str(&mut out, "The old_string appears ");
                push_decimal(&mut out, *occurrences as u64);
                push_str(
                    &mut out,
                    " times in the code. It must be unique. Include more surrounding context to make it unique.",
                );
            },
            ValidationError::TooLarge { lines_changed } => {
                push_str(&mut out, "Edit too large: ");
                push_decimal(&mut out, *lines_changed as u64);
                push_str(&mut out, " lines changed (max 120). Please break into smaller changes.");
            },
        }
        assert(out@ =~= self.text());
        string_of(&out, 0, out.len())
    }
}

/// The verdict on a proposed substitution.
#[derive(Debug, PartialEq, Eq, Structural, Clone, Copy)]
pub struct EditValidation {
    pub ok: bool,
    pub error: Option<ValidationError>,
    pub lines_changed: usize,
}

/// Number of lines that a substitution touches: the larger of the line
/// counts of the old and the new text.
pub open spec fn lines_changed(old_text: Seq<char>, new_text: Seq<char>) -> nat {
    if line_count(old_text) >= line_count(new_text) {
        line_count(old_text)
    } else {
        line_count(new_text)
    }
}

/// The verdict on replacing `old_text` by `new_text` in `text`: the old text
/// must occur, must match only once, and the edit must touch no more lines
/// than the ceiling.
pub open spec fn validation(text: Seq<char>, old_text: Seq<char>, new_text: Seq<char>)
    -> EditValidation {
    let occurrences = occurrence_count(text, old_text);
    let lines = lines_changed(old_text, new_text);
    if occurrences == 0 {
        EditValidation { ok: false, error: Some(ValidationError::NotFound), lines_changed: 0 }
    } else if occurrences > 1 {
        EditValidation {
            ok: false,
            error: Some(ValidationError::NotUnique { occurrences: capped(occurrences) }),
            lines_changed: 0,
        }
    } else if lines > MAX_LINES_CHANGED {
        EditValidation {
            ok: false,
            error: Some(ValidationError::TooLarge { lines_changed: lines as usize }),
            lines_changed: lines as usize,
        }
    } else {
        EditValidation { ok: true, error: None, lines_changed: lines as usize }
    }
}

/// A text that is absent from the document is never accepted: the verdict
/// is `NotFound`, whatever the new text.
pub proof fn lemma_absent_text_is_not_found(
    text: Seq<char>,
    old_text: Seq<char>,
    new_text: Seq<char>,
)
    requires
        !contains(text, old_text),
    ensures
        validation(text, old_text, new_text) == (EditValidation {
            ok: false,
            error: Some(ValidationError::NotFound),
            lines_changed: 0,
        }),
{
    lemma_absent_iff_no_match(text, old_text);
}

/// The size ceiling is inclusive: an edit with a single match is accepted
/// if it touches at most `MAX_LINES_CHANGED` lines, and refused as
/// `TooLarge` with its line count if it touches more.
pub proof fn lemma_size_ceiling(text: Seq<char>, old_text: Seq<char>, new_text: Seq<char>)
    requires
        occurrence_count(text, old_text) == 1,
        lines_changed(old_text, new_text) <= usize::MAX,
    ensures
        validation(text, old_text, new_text).ok <==> lines_changed(old_text, new_text)
            <= MAX_LINES_CHANGED,
        lines_changed(old_text, new_text) == 120 ==> validation(text, old_text, new_text).ok,
        lines_changed(old_text, new_text) == 121 ==> validation(text, old_text, new_text).error
            == Some(ValidationError::TooLarge { lines_changed: 121 }),
        validation(text, old_text, new_text).lines_changed == lines_changed(old_text, new_text),
{
}

/// Checks a proposed substitution against `text`, changing nothing.
pub fn validate(text: &str, old_string: &str, new_string: &str) -> (r: EditValidation)
    ensures
        r == validation(text@, old_string@, new_string@),
{
    let chars = to_chars(text);
    let pat = to_chars(old_string);
    let occurrences = count_matches(&chars, &pat);
    if occurrences == 0 {
        return EditValidation {
            ok: false,
            error: Some(ValidationError::NotFound),
            lines_changed: 0,
        };
    }
    if occurrences > 1 {
        return EditValidation {
            ok: false,
            error: Some(ValidationError::NotUnique { occurrences }),
            lines_changed: 0,
        };
    }
    let old_lines = count_lines(&pat);
    let new_lines = count_lines(&to_chars(new_string));
    let lines_changed = if old_lines >= new_lines { old_lines } else { new_lines };
    if lines_changed > MAX_LINES_CHANGED {
        return EditValidation {
            ok: false,
            error: Some(ValidationError::TooLarge { lines_changed }),
            lines_changed,
        };
    }
    EditValidation { ok: true, error: None, lines_changed }
}

/// Checks a proposed substitution against the current document.
pub fn validate_edit(old_string: &str, new_string: &str, state: &EditorState) -> (r:
    EditValidation)
    ensures
        r == validation(state.current_code@, old_string@, new_string@),
{
    validate(state.current_code.as_str(), old_string, new_string)
}

/// Why an edit was not committed.
#[derive(Debug)]
pub enum ApplyError {
    /// The old text is no substring of the document.
    NotFound,
    /// The old text occurs more than once, at `occurrences` offsets.
    NotUnique { occurrences: usize },
    /// The build tool could not be run on the candidate; `reason` is what
    /// the attempt reported.
    VerificationFailure { reason: String },
    /// The candidate has more errors than the document had.
    RegressionRejected,
}

impl ApplyError {
    /// The error in words, for the author of the edit.
    pub open spec fn text(self) -> Seq<char> {
        match self {
            ApplyError::NotFound => "The old_string was not found in the current code."@,
            ApplyError::NotUnique { occurrences } => "The old_string appears "@ + decimal(
                occurrences as nat,
            ) + " times. It must be unique."@,
            ApplyError::VerificationFailure { reason } => "Test compilation failed: "@ + reason@,
            ApplyError::RegressionRejected => "New compilation errors introduced"@,
        }
    }

    /// The error in words, for the author of the edit.
    pub fn message(&self) -> (r: String)
        ensures
            r@ == self.text(),
    {
        let mut out: Vec<char> = Vec::new();
        match self {
            ApplyError::NotFound => {
                push_str(&mut out, "The old_string was not found in the current code.");
            },
            ApplyError::NotUnique { occurrences } => {
                push_str(&mut out, "The old_string appears ");
                push_decimal(&mut out, *occurrences as u64);
                push_str(&mut out, " times. It must be unique.");
            },
            ApplyError::VerificationFailure { reason } => {
                push_str(&mut out, "Test compilation failed: ");
                push_str(&mut out, reason.as_str());
            },
            ApplyError::RegressionRejected => {
                push_str(&mut out, "New compilation errors introduced");
            },
        }
        assert(out@ =~= self.text());
        string_of(&out, 0, out.len())
    }
}

/// What became of an edit. `diagnostics` holds what the build tool said of
/// the candidate, where it ran; `checkpoint_id` names the checkpoint taken
/// before a committed edit.
#[derive(Debug)]
pub struct ApplyEditResult {
    pub success: bool,
    pub error: Option<ApplyError>,
    pub diagnostics: Vec<Diagnostic>,
    pub checkpoint_id: Option<String>,
}

/// An edit that passed the local checks and waits for the build tool's
/// verdict on its candidate text.
#[derive(Debug)]
pub struct PendingEdit {
    pub candidate: String,
    pub old_error_count: usize,
    pub checkpoint_id: String,
}

/// How the first half of an edit ended.
#[derive(Debug)]
pub enum EditStep {
    /// The edit was refused before any build; nothing is left to do.
    Rejected(ApplyEditResult),
    /// The candidate is to be built, and its outcome handed to
    /// `finish_edit`.
    Verify(PendingEdit),
}

/// What observers are told when the document changes.
#[derive(Debug)]
pub enum EditorEvent {
    /// An edit was committed; the payload is the document's new text.
    CodeUpdated(String),
    /// A render of the document is asked for.
    RenderRequested,
    /// The document was restored from the checkpoint in the payload.
    HistoryRestored(EditorCheckpoint),
}

/// The checkpoint that is taken before an edit of the given document.
pub open spec fn checkpoint_before_edit(
    id: Seq<char>,
    timestamp: i64,
    state: EditorState,
) -> CheckpointView {
    CheckpointView {
        id,
        timestamp,
        code: state.current_code@,
        diagnostics: diagnostic_views(state.diagnostics@),
        description: "Before AI edit"@,
        change_type: ChangeType::Ai,
    }
}

/// `after` is `before` with the checkpoint of `state` taken under the given
/// identifier and time.
pub open spec fn edit_checkpoint_taken(
    before: HistoryView,
    after: HistoryView,
    state: EditorState,
    id: Seq<char>,
    timestamp: i64,
) -> bool {
    after == before.pushed(checkpoint_before_edit(id, timestamp, state))
}

/// The leftmost match is the only offset that `first_match` can name.
pub proof fn lemma_first_match_is(text: Seq<char>, pat: Seq<char>, i: int)
    requires
        is_first_match_from(text, pat, 0, i),
    ensures
        first_match(text, pat) == i,
{
    let c = first_match(text, pat);
    assert(is_first_match_from(text, pat, 0, c));
    if c < i {
        assert(!crate::text::occurs_at(text, pat, c));
    } else if i < c {
        assert(!crate::text::occurs_at(text, pat, i));
    }
}

/// First half of an edit. Takes a checkpoint of the document as it stands,
/// then checks that the old text occurs exactly once. Where it does, the
/// candidate text and the document's error count are handed out for the
/// build; where it does not, the edit is refused. The document is only read.
pub fn begin_edit(
    state: &EditorState,
    history: &mut EditorHistory,
    old_string: &str,
    new_string: &str,
) -> (r: EditStep)
    requires
        old(history).wf(),
    ensures
        final(history).wf(),
        exists|id: Seq<char>, timestamp: i64|
            {
                &&& #[trigger] edit_checkpoint_taken(
                    old(history)@,
                    final(history)@,
                    *state,
                    id,
                    timestamp,
                )
                &&& r matches EditStep::Verify(p) ==> p.checkpoint_id@ == id
            },
        match r {
            EditStep::Rejected(res) => {
                let occurrences = occurrence_count(state.current_code@, old_string@);
                &&& !res.success
                &&& res.diagnostics@.len() == 0
                &&& res.checkpoint_id is None
                &&& occurrences != 1
                &&& occurrences == 0 ==> res.error == Some(ApplyError::NotFound)
                &&& occurrences > 1 ==> res.error == Some(
                    ApplyError::NotUnique { occurrences: capped(occurrences) },
                )
            },
            EditStep::Verify(p) => {
                &&& occurrence_count(state.current_code@, old_string@) == 1
                &&& p.candidate@ == replace_first(state.current_code@, old_string@, new_string@)
                &&& p.old_error_count == error_count(diagnostic_views(state.diagnostics@))
            },
        },
{
    let checkpoint_id = history.create_checkpoint(
        state.current_code.clone(),
        clone_diagnostics(&state.diagnostics),
        "Before AI edit".to_string(),
        ChangeType::Ai,
    );
    proof {
        let timestamp = choose|timestamp: i64|
            history@ == old(history)@.pushed(
                (CheckpointView {
                    id: checkpoint_id@,
                    timestamp,
                    code: state.current_code@,
                    diagnostics: diagnostic_views(state.diagnostics@),
                    description: "Before AI edit"@,
                    change_type: ChangeType::Ai,
                }),
            );
        assert(edit_checkpoint_taken(old(history)@, history@, *state, checkpoint_id@, timestamp));
    }
    let chars = to_chars(state.current_code.as_str());
    let pat = to_chars(old_string);
    let occurrences = count_matches(&chars, &pat);
    if occurrences == 0 {
        return EditStep::Rejected(
            ApplyEditResult {
                success: false,
                error: Some(ApplyError::NotFound),
                diagnostics: Vec::new(),
                checkpoint_id: None,
            },
        );
    }
    if occurrences > 1 {
        return EditStep::Rejected(
            ApplyEditResult {
                success: false,
                error: Some(ApplyError::NotUnique { occurrences }),
                diagnostics: Vec::new(),
                checkpoint_id: None,
            },
        );
    }
    let found = find_from(&chars, &pat, 0);
    proof {
        lemma_absent_iff_no_match(chars@, pat@);
        if found is None {
            let i = choose|i: int| crate::text::occurs_at(chars@, pat@, i);
            assert(0 <= i);
        }
    }
    let at = found.unwrap();
    proof {
        lemma_first_match_is(chars@, pat@, at as int);
        assert(crate::text::occurs_at(chars@, pat@, at as int));
        assert(at + pat.len() <= chars.len());
    }
    let rep = to_chars(new_string);
    let mut candidate: Vec<char> = Vec::new();
    append_range(&mut candidate, &chars, 0, at);
    append_range(&mut candidate, &rep, 0, rep.len());
    append_range(&mut candidate, &chars, at + pat.len(), chars.len());
    proof {
        assert(rep@.subrange(0, rep@.len() as int) =~= rep@);
        assert(candidate@ =~= replace_first(chars@, pat@, rep@));
    }
    let candidate = string_of(&candidate, 0, candidate.len());
    proof {
        assert(candidate@ =~= replace_first(chars@, pat@, rep@));
    }
    EditStep::Verify(
        PendingEdit {
            candidate,
            old_error_count: count_errors(&state.diagnostics),
            checkpoint_id,
        },
    )
}

/// Whether a build outcome lets an edit through: the build ran, and found
/// no more errors than the document had.
pub open spec fn accepted(old_error_count: nat, outcome: Result<Vec<Diagnostic>, String>) -> bool {
    match outcome {
        Ok(diagnostics) => error_count(diagnostic_views(diagnostics@)) <= old_error_count,
        Err(_) => false,
    }
}

/// Second half of an edit: commits the candidate if the build outcome lets
/// it through, and leaves the document untouched otherwise. A commit puts
/// the candidate and its diagnostics into the document and asks observers,
/// in this order, to show the new text and to render it.
pub fn finish_edit(
    state: &mut EditorState,
    pending: PendingEdit,
    outcome: Result<Vec<Diagnostic>, String>,
) -> (r: (ApplyEditResult, Vec<EditorEvent>))
    ensures
        r.0.success == accepted(pending.old_error_count as nat, outcome),
        match outcome {
            Ok(diagnostics) => diagnostic_views(r.0.diagnostics@) == diagnostic_views(
                diagnostics@,
            ),
            Err(_) => r.0.diagnostics@.len() == 0,
        },
        r.0.success ==> {
            &&& final(state).current_code@ == pending.candidate@
            &&& diagnostic_views(final(state).diagnostics@) == diagnostic_views(
                outcome->Ok_0@,
            )
            &&& final(state).last_preview_path == old(state).last_preview_path
            &&& final(state).openscad_path == old(state).openscad_path
            &&& final(state).working_dir == old(state).working_dir
            &&& r.0.error is None
            &&& r.0.checkpoint_id == Some(pending.checkpoint_id)
            &&& r.1@.len() == 2
            &&& r.1@[0] matches EditorEvent::CodeUpdated(code) && code@ == pending.candidate@
            &&& r.1@[1] is RenderRequested
        },
        !r.0.success ==> {
            &&& *final(state) == *old(state)
            &&& r.0.checkpoint_id is None
            &&& r.1@.len() == 0
            &&& match outcome {
                Ok(_) => r.0.error == Some(ApplyError::RegressionRejected),
                Err(reason) => r.0.error == Some(ApplyError::VerificationFailure { reason }),
            }
        },
{
    let diagnostics = match outcome {
        Ok(diagnostics) => diagnostics,
        Err(reason) => {
            return (
                ApplyEditResult {
                    success: false,
                    error: Some(ApplyError::VerificationFailure { reason }),
                    diagnostics: Vec::new(),
                    checkpoint_id: None,
                },
                Vec::new(),
            );
        },
    };
    let new_error_count = count_errors(&diagnostics);
    if new_error_count > pending.old_error_count {
        return (
            ApplyEditResult {
                success: false,
                error: Some(ApplyError::RegressionRejected),
                diagnostics,
                checkpoint_id: None,
            },
            Vec::new(),
        );
    }
    let shown = pending.candidate.clone();
    state.current_code = pending.candidate;
    state.diagnostics = clone_diagnostics(&diagnostics);
    let mut events: Vec<EditorEvent> = Vec::new();
    events.push(EditorEvent::CodeUpdated(shown));
    events.push(EditorEvent::RenderRequested);
    (
        ApplyEditResult {
            success: true,
            error: None,
            diagnostics,
            checkpoint_id: Some(pending.checkpoint_id),
        },
        events,
    )
}

/// A whole edit with the build tool given as a function from the
/// candidate text to its outcome. The checkpoint is taken first. The edit is
/// committed if and only if the old text occurs exactly once and the build
/// of the candidate runs and reports no more errors than the document had;
/// in every other case the document is left exactly as it was. A committed
/// document therefore never has more errors than before.
pub fn apply_edit<F: FnOnce(String) -> Result<Vec<Diagnostic>, String>>(
    state: &mut EditorState,
    history: &mut EditorHistory,
    old_string: &str,
    new_string: &str,
    verifier: F,
) -> (r: (ApplyEditResult, Vec<EditorEvent>))
    requires
        old(history).wf(),
        forall|candidate: String| call_requires(verifier, (candidate,)),
    ensures
        final(history).wf(),
        exists|id: Seq<char>, timestamp: i64|
            {
                &&& #[trigger] edit_checkpoint_taken(
                    old(history)@,
                    final(history)@,
                    *old(state),
                    id,
                    timestamp,
                )
                &&& r.0.success ==> r.0.checkpoint_id is Some && r.0.checkpoint_id->0@ == id
            },
        !contains(old(state).current_code@, old_string@) ==> r.0.error == Some(
            ApplyError::NotFound,
        ) && !r.0.success,
        occurrence_count(old(state).current_code@, old_string@) == 0 ==> r.0.error == Some(
            ApplyError::NotFound,
        ) && !r.0.success,
        occurrence_count(old(state).current_code@, old_string@) > 1 ==> r.0.error == Some(
            ApplyError::NotUnique {
                occurrences: capped(occurrence_count(old(state).current_code@, old_string@)),
            },
        ) && !r.0.success,
        occurrence_count(old(state).current_code@, old_string@) != 1 ==> r.0.diagnostics@.len()
            == 0,
        occurrence_count(old(state).current_code@, old_string@) == 1 ==> exists|
            candidate: String,
            outcome: Result<Vec<Diagnostic>, String>,
        |
            {
                &&& candidate@ == replace_first(
                    old(state).current_code@,
                    old_string@,
                    new_string@,
                )
                &&& #[trigger] call_ensures(verifier, (candidate,), outcome)
                &&& r.0.success == accepted(
                    error_count(diagnostic_views(old(state).diagnostics@)),
                    outcome,
                )
                &&& r.0.success ==> diagnostic_views(final(state).diagnostics@)
                    == diagnostic_views(outcome->Ok_0@)
                &&& match outcome {
                    Ok(diagnostics) => diagnostic_views(r.0.diagnostics@) == diagnostic_views(
                        diagnostics@,
                    ) && (!r.0.success ==> r.0.error == Some(ApplyError::RegressionRejected)),
                    Err(reason) => r.0.error == Some(ApplyError::VerificationFailure { reason }),
                }
            },
        !r.0.success ==> *final(state) == *old(state) && r.1@.len() == 0 && r.0.checkpoint_id
            is None,
        r.0.success ==> {
            &&& r.0.error is None
            &&& final(state).current_code@ == replace_first(
                old(state).current_code@,
                old_string@,
                new_string@,
            )
            &&& final(state).last_preview_path == old(state).last_preview_path
            &&& final(state).openscad_path == old(state).openscad_path
            &&& final(state).working_dir == old(state).working_dir
            &&& diagnostic_views(r.0.diagnostics@) == diagnostic_views(final(state).diagnostics@)
            &&& r.1@.len() == 2
            &&& r.1@[0] matches EditorEvent::CodeUpdated(code) && code@ == replace_first(
                old(state).current_code@,
                old_string@,
                new_string@,
            )
            &&& r.1@[1] is RenderRequested
        },
        error_count(diagnostic_views(final(state).diagnostics@)) <= error_count(
            diagnostic_views(old(state).diagnostics@),
        ),
{
    proof {
        lemma_absent_iff_no_match(state.current_code@, old_string@);
    }
    match begin_edit(state, history, old_string, new_string) {
        EditStep::Rejected(result) => (result, Vec::new()),
        EditStep::Verify(pending) => {
            let outcome = verifier(pending.candidate.clone());
            finish_edit(state, pending, outcome)
        },
    }
}

/// The document shows what `checkpoint` holds: its text and its
/// diagnostics; nothing else of `before` has changed.
pub open spec fn shows(after: EditorState, before: EditorState, checkpoint: CheckpointView) -> bool {
    &&& after.current_code@ == checkpoint.code
    &&& diagnostic_views(after.diagnostics@) == checkpoint.diagnostics
    &&& after.last_preview_path == before.last_preview_path
    &&& after.openscad_path == before.openscad_path
    &&& after.working_dir == before.working_dir
}

/// Puts the text and the diagnostics of `checkpoint` into the document and
/// hands out the notification for its observers.
pub fn restore_document(state: &mut EditorState, checkpoint: &EditorCheckpoint) -> (r: EditorEvent)
    ensures
        shows(*final(state), *old(state), checkpoint@),
        r matches EditorEvent::HistoryRestored(c) && c@ == checkpoint@,
{
    state.current_code = checkpoint.code.clone();
    state.diagnostics = clone_diagnostics(&checkpoint.diagnostics);
    EditorEvent::HistoryRestored(checkpoint.clone())
}

/// Takes a checkpoint of `code` with the document's current diagnostics
/// and returns its identifier.
pub fn checkpoint_document(
    state: &EditorState,
    history: &mut EditorHistory,
    code: String,
    description: String,
    change_type: ChangeType,
) -> (id: String)
    requires
        old(history).wf(),
    ensures
        final(history).wf(),
        exists|timestamp: i64|
            final(history)@ == old(history)@.pushed(
                (CheckpointView {
                    id: id@,
                    timestamp,
                    code: code@,
                    diagnostics: diagnostic_views(state.diagnostics@),
                    description: description@,
                    change_type,
                }),
            ),
{
    history.create_checkpoint(code, clone_diagnostics(&state.diagnostics), description, change_type)
}

/// Steps back in the history and shows the checkpoint reached in the
/// document. Where there is nothing to undo, nothing changes.
pub fn undo_document(state: &mut EditorState, history: &mut EditorHistory) -> (r: Result<
    (EditorCheckpoint, EditorEvent),
    HistoryError,
>)
    requires
        old(history).wf(),
    ensures
        final(history).wf(),
        final(history)@ == old(history)@.undone(),
        match r {
            Ok((checkpoint, event)) => {
                &&& old(history)@.undo_target() is Some
                &&& checkpoint@ == old(history)@.checkpoints[old(history)@.undo_target()->0]
                &&& shows(*final(state), *old(state), checkpoint@)
                &&& event matches EditorEvent::HistoryRestored(c) && c@ == checkpoint@
            },
            Err(e) => e == HistoryError::NoHistory && !old(history)@.can_undo() && *final(state)
                == *old(state),
        },
{
    match history.undo() {
        Ok(checkpoint) => {
            let event = restore_document(state, &checkpoint);
            Ok((checkpoint, event))
        },
        Err(e) => Err(e),
    }
}

/// Steps forward in the history and shows the checkpoint reached in the
/// document. Where there is nothing to redo, nothing changes.
pub fn redo_document(state: &mut EditorState, history: &mut EditorHistory) -> (r: Result<
    (EditorCheckpoint, EditorEvent),
    HistoryError,
>)
    requires
        old(history).wf(),
    ensures
        final(history).wf(),
        final(history)@ == old(history)@.redone(),
        match r {
            Ok((checkpoint, event)) => {
                &&& old(history)@.redo_result() == Some(checkpoint@)
                &&& shows(*final(state), *old(state), checkpoint@)
                &&& event matches EditorEvent::HistoryRestored(c) && c@ == checkpoint@
            },
            Err(e) => e == HistoryError::NoFuture && !old(history)@.can_redo() && *final(state)
                == *old(state),
        },
{
    match history.redo() {
        Ok(checkpoint) => {
            let event = restore_document(state, &checkpoint);
            Ok((checkpoint, event))
        },
        Err(e) => Err(e),
    }
}

/// Seeks the checkpoint with identifier `id` and shows it in the document.
/// Where no checkpoint has the identifier, nothing changes.
pub fn restore_to_checkpoint(state: &mut EditorState, history: &mut EditorHistory, id: &str) -> (r:
    Result<(EditorCheckpoint, EditorEvent), HistoryError>)
    requires
        old(history).wf(),
    ensures
        final(history).wf(),
        final(history)@ == old(history)@.restored(id@),
        match r {
            Ok((checkpoint, event)) => {
                &&& index_of(old(history)@.checkpoints, id@) is Some
                &&& checkpoint@ == old(history)@.checkpoints[index_of(
                    old(history)@.checkpoints,
                    id@,
                )->0]
                &&& shows(*final(state), *old(state), checkpoint@)
                &&& event matches EditorEvent::HistoryRestored(c) && c@ == checkpoint@
            },
            Err(e) => e == HistoryError::NotFound && index_of(old(history)@.checkpoints, id@)
                is None && *final(state) == *old(state),
        },
{
    match history.restore_to(id) {
        Ok(checkpoint) => {
            let event = restore_document(state, &checkpoint);
            Ok((checkpoint, event))
        },
        Err(e) => Err(e),
    }
}

} // verus!
