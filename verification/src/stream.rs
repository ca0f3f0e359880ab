//! One turn of a streamed reply: lines are cut from the arriving text,
//! and the events they carry drive a state machine that gathers the reply's
//! text, runs each tool call when its block closes, and decides whether the
//! conversation goes on.

use vstd::prelude::*;
use vstd::string::*;
use crate::parser::{line_end, lemma_line_end};
use crate::text::{has_prefix, starts_with, str_eq, string_of, to_chars, trim_range, trimmed};

verus! {

/// The first line of `buffer` without the white space around it, where the
/// buffer holds a line feed.
pub open spec fn next_line(buffer: Seq<char>) -> Option<Seq<char>> {
    if line_end(buffer) < buffer.len() {
        Some(trimmed(buffer.take(line_end(buffer))))
    } else {
        None
    }
}

/// What is left of `buffer` behind its first line.
pub open spec fn behind_line(buffer: Seq<char>) -> Seq<char> {
    if line_end(buffer) < buffer.len() {
        buffer.skip(line_end(buffer) + 1)
    } else {
        buffer
    }
}

/// Cuts the first complete line from `buffer` and hands it out without the
/// white space around it; a buffer without a line feed is left as it is.
pub fn take_line(buffer: &mut String) -> (r: Option<String>)
    ensures
        match r {
            Some(line) => next_line(old(buffer)@) == Some(line@),
            None => next_line(old(buffer)@) is None,
        },
        final(buffer)@ == behind_line(old(buffer)@),
{
    let v = to_chars(buffer.as_str());
    let mut end: usize = 0;
    while end < v.len() && v[end] != '\n'
        invariant
            end <= v.len(),
            forall|j: int| 0 <= j < end ==> v@[j] != '\n',
        decreases v.len() - end,
    {
        end += 1;
    }
    proof {
        lemma_line_end(v@, end as int);
    }
    if end == v.len() {
        return None;
    }
    let (a, b) = trim_range(&v, 0, end);
    assert(v@.subrange(0, end as int) =~= v@.take(end as int));
    let line = string_of(&v, a, b);
    *buffer = string_of(&v, end + 1, v.len());
    assert(v@.subrange(end + 1, v.len() as int) =~= v@.skip(end + 1));
    Some(line)
}

/// What a line of the stream carries.
#[derive(Debug)]
pub enum Frame {
    /// The line is no data line.
    Skip,
    /// The stream announces its end.
    Done,
    /// A payload to be decoded.
    Data(String),
}

pub ghost enum FrameView {
    Skip,
    Done,
    Data(Seq<char>),
}

impl View for Frame {
    type V = FrameView;

    open spec fn view(&self) -> FrameView {
        match self {
            Frame::Skip => FrameView::Skip,
            Frame::Done => FrameView::Done,
            Frame::Data(s) => FrameView::Data(s@),
        }
    }
}

/// The prefix of a data line.
pub open spec fn data_prefix() -> Seq<char> {
    "data: "@
}

/// What a line carries: the payload behind the data prefix, the end of the
/// stream where the payload is the end marker, and nothing for any other
/// line.
pub open spec fn frame_of(line: Seq<char>) -> FrameView {
    if has_prefix(line, data_prefix()) {
        let payload = line.skip(data_prefix().len() as int);
        if payload == "[DONE]"@ {
            FrameView::Done
        } else {
            FrameView::Data(payload)
        }
    } else {
        FrameView::Skip
    }
}

/// Reads what a line of the stream carries.
pub fn read_frame(line: &str) -> (r: Frame)
    ensures
        r@ == frame_of(line@),
{
    let v = to_chars(line);
    proof {
        reveal_strlit("data: ");
    }
    if !starts_with(&v, "data: ") {
        return Frame::Skip;
    }
    let payload = string_of(&v, 6, v.len());
    assert(payload@ =~= line@.skip(6));
    if str_eq(payload.as_str(), "[DONE]") {
        Frame::Done
    } else {
        Frame::Data(payload)
    }
}

/// An event of the stream, decoded.
#[derive(Debug)]
pub enum BlockEvent {
    /// A block opens in which a tool is called.
    ToolUseStart { name: String, id: String },
    /// A block of text opens.
    TextStart,
    /// More text of the reply.
    TextDelta(String),
    /// More of the arguments of the tool call, as text.
    InputDelta(String),
    /// The open block closes.
    BlockStop,
    /// Any other event.
    Other,
}

pub ghost enum EventView {
    ToolUseStart { name: Seq<char>, id: Seq<char> },
    TextStart,
    TextDelta(Seq<char>),
    InputDelta(Seq<char>),
    BlockStop,
    Other,
}

impl View for BlockEvent {
    type V = EventView;

    open spec fn view(&self) -> EventView {
        match self {
            BlockEvent::ToolUseStart { name, id } => EventView::ToolUseStart {
                name: name@,
                id: id@,
            },
            BlockEvent::TextStart => EventView::TextStart,
            BlockEvent::TextDelta(s) => EventView::TextDelta(s@),
            BlockEvent::InputDelta(s) => EventView::InputDelta(s@),
            BlockEvent::BlockStop => EventView::BlockStop,
            BlockEvent::Other => EventView::Other,
        }
    }
}

/// A block of the reply as it is kept for the next request.
#[derive(Debug)]
pub enum ContentBlock {
    Text(String),
    ToolUse { id: String, name: String, input: String },
}

pub ghost enum BlockView {
    Text(Seq<char>),
    ToolUse { id: Seq<char>, name: Seq<char>, input: Seq<char> },
}

impl View for ContentBlock {
    type V = BlockView;

    open spec fn view(&self) -> BlockView {
        match self {
            ContentBlock::Text(s) => BlockView::Text(s@),
            ContentBlock::ToolUse { id, name, input } => BlockView::ToolUse {
                id: id@,
                name: name@,
                input: input@,
            },
        }
    }
}

/// The views of a list of blocks, in order.
pub open spec fn block_views(blocks: Seq<ContentBlock>) -> Seq<BlockView> {
    blocks.map_values(|b: ContentBlock| b@)
}

/// What a tool answered, as it is sent with the next request.
#[derive(Debug)]
pub struct ToolOutcome {
    pub tool_use_id: String,
    pub content: String,
    pub is_error: bool,
}

pub ghost struct OutcomeView {
    pub tool_use_id: Seq<char>,
    pub content: Seq<char>,
    pub is_error: bool,
}

impl View for ToolOutcome {
    type V = OutcomeView;

    open spec fn view(&self) -> OutcomeView {
        OutcomeView {
            tool_use_id: self.tool_use_id@,
            content: self.content@,
            is_error: self.is_error,
        }
    }
}

/// The views of a list of outcomes, in order.
pub open spec fn outcome_views(outcomes: Seq<ToolOutcome>) -> Seq<OutcomeView> {
    outcomes.map_values(|o: ToolOutcome| o@)
}

/// What the driver of the stream is to do after an event.
#[derive(Debug)]
pub enum StreamAction {
    /// Nothing.
    Nothing,
    /// Tell the listener that a tool call began.
    AnnounceTool { name: String },
    /// Pass text of the reply on to the listener.
    ShowText(String),
    /// Run the tool with the arguments gathered, and report what it
    /// answered.
    RunTool { id: String, name: String, input: String },
}

pub ghost enum ActionView {
    Nothing,
    AnnounceTool { name: Seq<char> },
    ShowText(Seq<char>),
    RunTool { id: Seq<char>, name: Seq<char>, input: Seq<char> },
}

impl View for StreamAction {
    type V = ActionView;

    open spec fn view(&self) -> ActionView {
        match self {
            StreamAction::Nothing => ActionView::Nothing,
            StreamAction::AnnounceTool { name } => ActionView::AnnounceTool { name: name@ },
            StreamAction::ShowText(s) => ActionView::ShowText(s@),
            StreamAction::RunTool { id, name, input } => ActionView::RunTool {
                id: id@,
                name: name@,
                input: input@,
            },
        }
    }
}

/// What a tool call is answered with: what the tool said, or its error
/// behind the word `Error`.
pub open spec fn answer_content(answer: Result<String, String>) -> Seq<char> {
    match answer {
        Ok(text) => text@,
        Err(e) => "Error: "@ + e@,
    }
}

/// What a tool call is answered with.
pub fn answer_text(answer: Result<String, String>) -> (r: String)
    ensures
        r@ == answer_content(answer),
{
    match answer {
        Ok(text) => text,
        Err(e) => "Error: ".to_string().concat(e.as_str()),
    }
}

/// The state of one turn.
pub struct Turn {
    pub tool_id: Option<String>,
    pub tool_name: Option<String>,
    pub tool_input: String,
    pub content: Vec<ContentBlock>,
    pub results: Vec<ToolOutcome>,
    pub has_tool_use: bool,
}

pub ghost struct TurnView {
    pub tool_id: Option<Seq<char>>,
    pub tool_name: Option<Seq<char>>,
    pub tool_input: Seq<char>,
    pub content: Seq<BlockView>,
    pub results: Seq<OutcomeView>,
    pub has_tool_use: bool,
}

/// The text of an optional string.
pub open spec fn text_of(s: Option<String>) -> Option<Seq<char>> {
    match s {
        Some(s) => Some(s@),
        None => None,
    }
}

impl View for Turn {
    type V = TurnView;

    open spec fn view(&self) -> TurnView {
        TurnView {
            tool_id: text_of(self.tool_id),
            tool_name: text_of(self.tool_name),
            tool_input: self.tool_input@,
            content: block_views(self.content@),
            results: outcome_views(self.results@),
            has_tool_use: self.has_tool_use,
        }
    }
}

impl TurnView {
    /// The state at the start of a turn.
    pub open spec fn start() -> TurnView {
        TurnView {
            tool_id: None,
            tool_name: None,
            tool_input: Seq::empty(),
            content: Seq::empty(),
            results: Seq::empty(),
            has_tool_use: false,
        }
    }

    /// Whether the reply ends in a block of text.
    pub open spec fn ends_in_text(self) -> bool {
        self.content.len() > 0 && self.content.last() is Text
    }

    /// Whether a tool call is open.
    pub open spec fn tool_open(self) -> bool {
        self.tool_id is Some && self.tool_name is Some
    }

    /// The state after an event. A tool block that opens is remembered
    /// with empty arguments. A text block that opens adds an empty text
    /// unless the reply ends in text. Text is appended to the text at the
    /// end of the reply, starts the reply where it is empty, and is not
    /// kept where the reply ends in a tool call. Arguments are gathered.
    /// A block that closes while a tool call is open files the call with
    /// its arguments and closes it.
    pub open spec fn after(self, event: EventView) -> TurnView {
        match event {
            EventView::ToolUseStart { name, id } => TurnView {
                tool_id: Some(id),
                tool_name: Some(name),
                tool_input: Seq::empty(),
                ..self
            },
            EventView::TextStart => if self.ends_in_text() {
                self
            } else {
                TurnView { content: self.content.push(BlockView::Text(Seq::empty())), ..self }
            },
            EventView::TextDelta(text) => if self.content.len() == 0 {
                TurnView { content: seq![BlockView::Text(text)], ..self }
            } else if self.content.last() is Text {
                TurnView {
                    content: self.content.drop_last().push(
                        BlockView::Text(self.content.last()->Text_0 + text),
                    ),
                    ..self
                }
            } else {
                self
            },
            EventView::InputDelta(partial) => TurnView {
                tool_input: self.tool_input + partial,
                ..self
            },
            EventView::BlockStop => if self.tool_open() {
                TurnView {
                    tool_id: None,
                    tool_name: None,
                    tool_input: Seq::empty(),
                    content: self.content.push(
                        BlockView::ToolUse {
                            id: self.tool_id->0,
                            name: self.tool_name->0,
                            input: self.tool_input,
                        },
                    ),
                    has_tool_use: true,
                    ..self
                }
            } else {
                self
            },
            EventView::Other => self,
        }
    }

    /// What the driver is to do after an event in this state.
    pub open spec fn action(self, event: EventView) -> ActionView {
        match event {
            EventView::ToolUseStart { name, id } => ActionView::AnnounceTool { name },
            EventView::TextDelta(text) => ActionView::ShowText(text),
            EventView::BlockStop => if self.tool_open() {
                ActionView::RunTool {
                    id: self.tool_id->0,
                    name: self.tool_name->0,
                    input: self.tool_input,
                }
            } else {
                ActionView::Nothing
            },
            _ => ActionView::Nothing,
        }
    }

    /// The outcome that is filed for a tool call: its answer, or its error
    /// behind the word `Error`.
    pub open spec fn outcome(id: Seq<char>, answer: Result<String, String>) -> OutcomeView {
        OutcomeView { tool_use_id: id, content: answer_content(answer), is_error: answer is Err }
    }

    /// Whether the conversation goes on with another request: a tool was
    /// called and answered.
    pub open spec fn goes_on(self) -> bool {
        self.has_tool_use && self.results.len() > 0
    }
}

impl Turn {
    /// A turn before its first event.
    pub fn new() -> (r: Self)
        ensures
            r@ == TurnView::start(),
    {
        let r = Turn {
            tool_id: None,
            tool_name: None,
            tool_input: String::new(),
            content: Vec::new(),
            results: Vec::new(),
            has_tool_use: false,
        };
        assert(block_views(r.content@) =~= Seq::empty());
        assert(outcome_views(r.results@) =~= Seq::empty());
        r
    }

    /// Takes in an event and says what the driver is to do.
    pub fn on_event(&mut self, event: BlockEvent) -> (r: StreamAction)
        ensures
            final(self)@ == old(self)@.after(event@),
            r@ == old(self)@.action(event@),
    {
        let ghost before = block_views(self.content@);
        match event {
            BlockEvent::ToolUseStart { name, id } => {
                let shown = name.clone();
                self.tool_id = Some(id);
                self.tool_name = Some(name);
                self.tool_input = String::new();
                StreamAction::AnnounceTool { name: shown }
            },
            BlockEvent::TextStart => {
                let n = self.content.len();
                let ends_in_text = n > 0 && matches!(self.content[n - 1], ContentBlock::Text(_));
                assert(ends_in_text == old(self)@.ends_in_text()) by {
                    if n > 0 {
                        assert(before.last() == self.content@[n - 1]@);
                    }
                }
                if !ends_in_text {
                    self.content.push(ContentBlock::Text(String::new()));
                    assert(block_views(self.content@) =~= before.push(
                        BlockView::Text(Seq::empty()),
                    ));
                }
                StreamAction::Nothing
            },
            BlockEvent::TextDelta(text) => {
                let shown = text.clone();
                match self.content.pop() {
                    None => {
                        self.content.push(ContentBlock::Text(text));
                        assert(block_views(self.content@) =~= seq![BlockView::Text(text@)]);
                    },
                    Some(ContentBlock::Text(mut current)) => {
                        assert(before.last() == BlockView::Text(current@));
                        let ghost kept = block_views(self.content@);
                        assert(kept =~= before.drop_last());
                        let ghost joined = current@ + text@;
                        current.append(text.as_str());
                        self.content.push(ContentBlock::Text(current));
                        assert(block_views(self.content@) =~= kept.push(BlockView::Text(joined)));
                    },
                    Some(other) => {
                        assert(before.last() == other@);
                        let ghost kept = block_views(self.content@);
                        assert(kept =~= before.drop_last());
                        self.content.push(other);
                        assert(block_views(self.content@) =~= before);
                    },
                }
                StreamAction::ShowText(shown)
            },
            BlockEvent::InputDelta(partial) => {
                self.tool_input.append(partial.as_str());
                StreamAction::Nothing
            },
            BlockEvent::BlockStop => {
                if self.tool_id.is_some() && self.tool_name.is_some() {
                    let id = self.tool_id.take().unwrap();
                    let name = self.tool_name.take().unwrap();
                    let input = self.tool_input.clone();
                    self.tool_input = String::new();
                    self.has_tool_use = true;
                    self.content.push(
                        ContentBlock::ToolUse {
                            id: id.clone(),
                            name: name.clone(),
                            input: input.clone(),
                        },
                    );
                    assert(block_views(self.content@) =~= before.push(
                        BlockView::ToolUse { id: id@, name: name@, input: input@ },
                    ));
                    StreamAction::RunTool { id, name, input }
                } else {
                    StreamAction::Nothing
                }
            },
            BlockEvent::Other => StreamAction::Nothing,
        }
    }

    /// Files what a tool answered, for the next request.
    pub fn on_tool_result(&mut self, id: String, answer: Result<String, String>)
        ensures
            final(self)@ == (TurnView {
                results: old(self)@.results.push(TurnView::outcome(id@, answer)),
                ..old(self)@
            }),
    {
        let ghost before = outcome_views(self.results@);
        let is_error = answer.is_err();
        let outcome = ToolOutcome { tool_use_id: id, content: answer_text(answer), is_error };
        self.results.push(outcome);
        assert(outcome_views(self.results@) =~= before.push(TurnView::outcome(id@, answer)));
    }

    /// Whether the conversation goes on with another request.
    pub fn goes_on(&self) -> (r: bool)
        ensures
            r == self@.goes_on(),
    {
        self.has_tool_use && self.results.len() > 0
    }
}

/// What the listener is told when a tool failed.
pub fn tool_failure_message(error: &str) -> (r: String)
    ensures
        r@ == "Tool execution failed: "@ + error@,
{
    "Tool execution failed: ".to_string().concat(error)
}

/// What the caller is told when the service refused the request.
pub fn api_error_message(body: &str) -> (r: String)
    ensures
        r@ == "API error: "@ + body@,
{
    "API error: ".to_string().concat(body)
}

/// A tool call that a reply builds up piece by piece under a number.
#[derive(Debug)]
pub struct PendingCall {
    pub index: usize,
    pub name: String,
    pub arguments: String,
    pub announced: bool,
}

pub ghost struct CallView {
    pub index: usize,
    pub name: Seq<char>,
    pub arguments: Seq<char>,
    pub announced: bool,
}

impl View for PendingCall {
    type V = CallView;

    open spec fn view(&self) -> CallView {
        CallView {
            index: self.index,
            name: self.name@,
            arguments: self.arguments@,
            announced: self.announced,
        }
    }
}

/// The views of a list of calls, in order.
pub open spec fn call_views(calls: Seq<PendingCall>) -> Seq<CallView> {
    calls.map_values(|c: PendingCall| c@)
}

/// The first position at which `calls` holds the call numbered `index`, or
/// the length of `calls` where it holds none.
pub open spec fn slot_of(calls: Seq<CallView>, index: usize) -> int
    decreases calls.len(),
{
    if calls.len() == 0 || calls[0].index == index {
        0
    } else {
        1 + slot_of(calls.drop_first(), index)
    }
}

/// `calls` with an empty call numbered `index` at its end, unless it holds
/// that call already.
pub open spec fn touched(calls: Seq<CallView>, index: usize) -> Seq<CallView> {
    if slot_of(calls, index) < calls.len() {
        calls
    } else {
        calls.push(
            CallView { index, name: Seq::empty(), arguments: Seq::empty(), announced: false },
        )
    }
}

/// A call after a piece of it arrived: a name replaces the name and marks
/// the call as announced, arguments are appended.
pub open spec fn grown(call: CallView, name: Option<Seq<char>>, arguments: Option<Seq<char>>)
    -> CallView {
    CallView {
        index: call.index,
        name: match name {
            Some(n) => n,
            None => call.name,
        },
        arguments: match arguments {
            Some(a) => call.arguments + a,
            None => call.arguments,
        },
        announced: call.announced || name is Some,
    }
}

/// The calls after a piece of the call numbered `index` arrived.
pub open spec fn after_piece(
    calls: Seq<CallView>,
    index: usize,
    name: Option<Seq<char>>,
    arguments: Option<Seq<char>>,
) -> Seq<CallView> {
    let held = touched(calls, index);
    let slot = slot_of(calls, index);
    held.update(slot, grown(held[slot], name, arguments))
}

/// Whether a piece tells the listener of a call: it carries a name, and
/// the call was not announced before.
pub open spec fn announces(calls: Seq<CallView>, index: usize, name: Option<Seq<char>>) -> bool {
    name is Some && !(slot_of(calls, index) < calls.len() && calls[slot_of(
        calls,
        index,
    )].announced)
}

/// Whether the conversation goes on with another request: the reply
/// called a tool.
pub fn calls_go_on(calls: &Vec<PendingCall>) -> (r: bool)
    ensures
        r == (call_views(calls@).len() > 0),
{
    calls.len() > 0
}

/// The first call with the number lies behind a prefix that has none.
pub proof fn lemma_slot_of(calls: Seq<CallView>, index: usize, n: int)
    requires
        0 <= n <= calls.len(),
        forall|j: int| 0 <= j < n ==> (#[trigger] calls[j]).index != index,
        n == calls.len() || calls[n].index == index,
    ensures
        slot_of(calls, index) == n,
    decreases n,
{
    if n > 0 {
        let rest = calls.drop_first();
        assert(calls[0].index != index);
        assert forall|j: int| 0 <= j < n - 1 implies (#[trigger] rest[j]).index != index by {
            assert(rest[j] == calls[j + 1]);
        }
        lemma_slot_of(rest, index, n - 1);
    }
}

/// The identifier under which the call numbered `index` is answered.
pub fn call_id(index: usize) -> (r: String)
    ensures
        r@ == "call_"@ + crate::text::decimal(index as nat),
{
    let mut out: Vec<char> = Vec::new();
    crate::text::push_str(&mut out, "call_");
    crate::text::push_decimal(&mut out, index as u64);
    string_of(&out, 0, out.len())
}

/// Takes in a piece of the call numbered `index`: its name, more of its
/// arguments, or both. Hands out the name where the listener is to be told
/// of the call.
pub fn on_call_piece(
    calls: &mut Vec<PendingCall>,
    index: usize,
    name: Option<String>,
    arguments: Option<String>,
) -> (r: Option<String>)
    ensures
        call_views(final(calls)@) == after_piece(
            call_views(old(calls)@),
            index,
            text_of(name),
            text_of(arguments),
        ),
        match r {
            Some(n) => announces(call_views(old(calls)@), index, text_of(name)) && Some(n@)
                == text_of(name),
            None => !announces(call_views(old(calls)@), index, text_of(name)),
        },
{
    let ghost before = call_views(calls@);
    let mut slot: usize = 0;
    while slot < calls.len() && calls[slot].index != index
        invariant
            slot <= calls.len(),
            before == call_views(calls@),
            calls@ == old(calls)@,
            forall|j: int| 0 <= j < slot ==> (#[trigger] before[j]).index != index,
        decreases calls.len() - slot,
    {
        assert(before[slot as int] == calls@[slot as int]@);
        slot += 1;
    }
    proof {
        if slot < calls.len() {
            assert(before[slot as int] == calls@[slot as int]@);
        }
        lemma_slot_of(before, index, slot as int);
    }
    if slot == calls.len() {
        calls.push(
            PendingCall { index, name: String::new(), arguments: String::new(), announced: false },
        );
        assert(call_views(calls@) =~= touched(before, index));
    }
    let ghost held = call_views(calls@);
    assert(held == touched(before, index));
    let was_announced = calls[slot].announced;
    let mut arguments_now = calls[slot].arguments.clone();
    if let Some(more) = &arguments {
        arguments_now.append(more.as_str());
    }
    let (name_now, told) = match name {
        Some(n) => {
            let told = if was_announced { None } else { Some(n.clone()) };
            (n, told)
        },
        None => (calls[slot].name.clone(), None),
    };
    let announced = was_announced || told.is_some();
    assert(held[slot as int] == calls@[slot as int]@);
    calls.set(slot, PendingCall { index, name: name_now, arguments: arguments_now, announced });
    assert(call_views(calls@) =~= held.update(
        slot as int,
        grown(held[slot as int], text_of(name), text_of(arguments)),
    ));
    told
}

} // verus!
