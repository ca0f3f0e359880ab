use scad_editor_core::report::{build_system_prompt, SYSTEM_PROMPT};
use scad_editor_core::stream::{
    answer_text, api_error_message, call_id, calls_go_on, on_call_piece, read_frame, take_line,
    tool_failure_message, BlockEvent, ContentBlock, Frame, PendingCall, StreamAction, Turn,
};

fn text(s: &str) -> BlockEvent {
    BlockEvent::TextDelta(s.to_string())
}

fn tool_start(name: &str, id: &str) -> BlockEvent {
    BlockEvent::ToolUseStart { name: name.to_string(), id: id.to_string() }
}

#[test]
fn lines_are_cut_at_line_feeds() {
    let mut buffer = "  data: a \r\n\ndata: b\npartial".to_string();
    assert_eq!(take_line(&mut buffer), Some("data: a".to_string()));
    assert_eq!(buffer, "\ndata: b\npartial");
    assert_eq!(take_line(&mut buffer), Some(String::new()));
    assert_eq!(take_line(&mut buffer), Some("data: b".to_string()));
    assert_eq!(buffer, "partial");
    assert_eq!(take_line(&mut buffer), None);
    assert_eq!(buffer, "partial");
    buffer.push_str(" line\n");
    assert_eq!(take_line(&mut buffer), Some("partial line".to_string()));
    assert_eq!(buffer, "");
    assert_eq!(take_line(&mut buffer), None);
}

#[test]
fn frames_of_lines() {
    assert!(matches!(read_frame("data: [DONE]"), Frame::Done));
    assert!(matches!(read_frame("data: {\"a\":1}"), Frame::Data(p) if p == "{\"a\":1}"));
    assert!(matches!(read_frame("data: "), Frame::Data(p) if p.is_empty()));
    assert!(matches!(read_frame("data:"), Frame::Skip));
    assert!(matches!(read_frame("event: ping"), Frame::Skip));
    assert!(matches!(read_frame(""), Frame::Skip));
    assert!(matches!(read_frame("data:  [DONE]"), Frame::Data(p) if p == " [DONE]"));
}

#[test]
fn text_is_gathered_into_one_block() {
    let mut turn = Turn::new();
    assert!(matches!(turn.on_event(BlockEvent::TextStart), StreamAction::Nothing));
    assert!(matches!(turn.on_event(text("Hel")), StreamAction::ShowText(t) if t == "Hel"));
    assert!(matches!(turn.on_event(text("lo")), StreamAction::ShowText(t) if t == "lo"));
    assert!(matches!(turn.on_event(BlockEvent::BlockStop), StreamAction::Nothing));
    assert!(matches!(turn.on_event(BlockEvent::TextStart), StreamAction::Nothing));
    assert!(matches!(turn.on_event(BlockEvent::Other), StreamAction::Nothing));
    assert_eq!(turn.content.len(), 1);
    assert!(matches!(&turn.content[0], ContentBlock::Text(t) if t == "Hello"));
    assert!(!turn.goes_on());
}

#[test]
fn text_without_a_block_starts_the_reply() {
    let mut turn = Turn::new();
    turn.on_event(text("a"));
    turn.on_event(text("b"));
    assert_eq!(turn.content.len(), 1);
    assert!(matches!(&turn.content[0], ContentBlock::Text(t) if t == "ab"));
}

#[test]
fn tool_calls_run_when_their_block_closes() {
    let mut turn = Turn::new();
    turn.on_event(BlockEvent::TextStart);
    turn.on_event(text("Let me look."));
    assert!(matches!(
        turn.on_event(tool_start("apply_edit", "tool-1")),
        StreamAction::AnnounceTool { name } if name == "apply_edit"
    ));
    turn.on_event(BlockEvent::InputDelta("{\"old_".to_string()));
    turn.on_event(BlockEvent::InputDelta("string\":1}".to_string()));
    let action = turn.on_event(BlockEvent::BlockStop);
    assert!(matches!(
        &action,
        StreamAction::RunTool { id, name, input }
            if id == "tool-1" && name == "apply_edit" && input == "{\"old_string\":1}"
    ));
    assert!(turn.has_tool_use);
    assert!(turn.tool_id.is_none() && turn.tool_name.is_none());
    assert_eq!(turn.tool_input, "");
    assert_eq!(turn.content.len(), 2);
    assert!(matches!(
        &turn.content[1],
        ContentBlock::ToolUse { id, name, input }
            if id == "tool-1" && name == "apply_edit" && input == "{\"old_string\":1}"
    ));
    assert!(!turn.goes_on());
    turn.on_tool_result("tool-1".to_string(), Ok("done".to_string()));
    assert!(turn.goes_on());
    assert_eq!(turn.results[0].tool_use_id, "tool-1");
    assert_eq!(turn.results[0].content, "done");
    assert!(!turn.results[0].is_error);

    turn.on_event(text("dropped"));
    assert_eq!(turn.content.len(), 2);
    turn.on_event(BlockEvent::TextStart);
    turn.on_event(text("kept"));
    assert_eq!(turn.content.len(), 3);
    assert!(matches!(&turn.content[2], ContentBlock::Text(t) if t == "kept"));

    turn.on_event(tool_start("get_diagnostics", "tool-2"));
    assert!(matches!(
        turn.on_event(BlockEvent::BlockStop),
        StreamAction::RunTool { input, .. } if input.is_empty()
    ));
    turn.on_tool_result("tool-2".to_string(), Err("boom".to_string()));
    assert_eq!(turn.results.len(), 2);
    assert_eq!(turn.results[1].content, "Error: boom");
    assert!(turn.results[1].is_error);
    assert!(matches!(turn.on_event(BlockEvent::BlockStop), StreamAction::Nothing));
}

#[test]
fn messages_and_prompt() {
    assert_eq!(tool_failure_message("x"), "Tool execution failed: x");
    assert_eq!(api_error_message("{}"), "API error: {}");
    let prompt = build_system_prompt();
    assert_eq!(prompt, SYSTEM_PROMPT);
    assert!(prompt.starts_with("## OpenSCAD AI Assistant\n"));
    assert!(prompt.contains("Maximum 120 lines changed per edit."));
    assert!(prompt.ends_with("- Functions: `function name(params) = expression;`\n"));
}

#[test]
fn numbered_calls_are_built_from_pieces() {
    let s = |t: &str| Some(t.to_string());
    let mut calls: Vec<PendingCall> = Vec::new();
    assert_eq!(on_call_piece(&mut calls, 0, s("apply_edit"), s("")), s("apply_edit"));
    assert_eq!(on_call_piece(&mut calls, 0, None, s("{\"old")), None);
    assert_eq!(on_call_piece(&mut calls, 1, None, s("{}")), None);
    assert_eq!(on_call_piece(&mut calls, 0, None, s("\":1}")), None);
    assert_eq!(on_call_piece(&mut calls, 1, s("get_diagnostics"), None), s("get_diagnostics"));
    assert_eq!(on_call_piece(&mut calls, 1, s("trigger_render"), None), None);
    assert_eq!(on_call_piece(&mut calls, 7, None, None), None);
    assert_eq!(calls.len(), 3);
    assert_eq!(calls[0].index, 0);
    assert_eq!(calls[0].name, "apply_edit");
    assert_eq!(calls[0].arguments, "{\"old\":1}");
    assert!(calls[0].announced);
    assert_eq!(calls[1].index, 1);
    assert_eq!(calls[1].name, "trigger_render");
    assert_eq!(calls[1].arguments, "{}");
    assert_eq!(calls[2].index, 7);
    assert_eq!(calls[2].name, "");
    assert_eq!(calls[2].arguments, "");
    assert!(!calls[2].announced);
    assert!(calls_go_on(&calls));
    assert!(!calls_go_on(&Vec::new()));
    assert_eq!(answer_text(Ok("fine".to_string())), "fine");
    assert_eq!(answer_text(Err("boom".to_string())), "Error: boom");
    assert_eq!(call_id(0), "call_0");
    assert_eq!(call_id(12), "call_12");
}
