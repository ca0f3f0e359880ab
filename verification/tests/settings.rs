use scad_editor_core::conversations::{delete, save, Conversation, Message};
use scad_editor_core::locate::{
    exe_name, finder_command, first_output_line, install_candidates, is_app_bundle,
    missing_path_message, version_line, Platform,
};
use scad_editor_core::settings::{
    available_providers, provider_or_default, require_key, selected_model, store_key,
    store_key_or_default,
};
use scad_editor_core::state::{AppState, HistoryState};

fn conversation(id: &str, title: &str) -> Conversation {
    Conversation {
        id: id.to_string(),
        title: title.to_string(),
        timestamp: 1,
        messages: vec![Message { role: "user".to_string(), content: "hi".to_string(), timestamp: 2 }],
    }
}

fn titles(list: &Vec<Conversation>) -> Vec<String> {
    list.iter().map(|c| format!("{}:{}", c.id, c.title)).collect()
}

#[test]
fn credential_names() {
    assert_eq!(store_key("anthropic"), Ok("anthropic_api_key".to_string()));
    assert_eq!(store_key("openai"), Ok("openai_api_key".to_string()));
    assert_eq!(store_key("mistral"), Err("Unknown provider: mistral".to_string()));
    assert_eq!(store_key_or_default("openai"), "openai_api_key");
    assert_eq!(store_key_or_default("anthropic"), "anthropic_api_key");
    assert_eq!(store_key_or_default("mistral"), "anthropic_api_key");
    assert_eq!(require_key("openai", Some("k".to_string())), Ok("k".to_string()));
    assert_eq!(
        require_key("openai", None),
        Err("No API key found for openai. Please set your API key in Settings".to_string())
    );
}

#[test]
fn providers_and_models() {
    assert_eq!(provider_or_default(None), "anthropic");
    assert_eq!(provider_or_default(Some("openai".to_string())), "openai");
    assert_eq!(selected_model(Some("m".to_string()), Some("openai".to_string()), "f"), "m");
    assert_eq!(selected_model(None, Some("openai".to_string()), "f"), "gpt-5");
    assert_eq!(selected_model(None, Some("anthropic".to_string()), "f"), "f");
    assert_eq!(selected_model(None, Some("other".to_string()), "f"), "f");
    assert_eq!(selected_model(None, None, "f"), "f");
    assert_eq!(available_providers(true, true), vec!["anthropic", "openai"]);
    assert_eq!(available_providers(false, true), vec!["openai"]);
    assert_eq!(available_providers(true, false), vec!["anthropic"]);
    assert!(available_providers(false, false).is_empty());
}

#[test]
fn conversations_are_saved_by_id() {
    let mut list = Vec::new();
    save(&mut list, conversation("a", "one"));
    save(&mut list, conversation("b", "two"));
    save(&mut list, conversation("a", "three"));
    assert_eq!(titles(&list), vec!["a:three", "b:two"]);
    save(&mut list, conversation("c", "four"));
    assert_eq!(titles(&list), vec!["a:three", "b:two", "c:four"]);
    assert_eq!(list[0].messages.len(), 1);
}

#[test]
fn conversations_are_deleted_by_id() {
    let mut list = vec![
        conversation("a", "1"),
        conversation("b", "2"),
        conversation("a", "3"),
        conversation("c", "4"),
        conversation("a", "5"),
    ];
    delete(&mut list, "a");
    assert_eq!(titles(&list), vec!["b:2", "c:4"]);
    delete(&mut list, "zzz");
    assert_eq!(titles(&list), vec!["b:2", "c:4"]);
    delete(&mut list, "b");
    delete(&mut list, "c");
    assert!(list.is_empty());
    delete(&mut list, "c");
    assert!(list.is_empty());
}

#[test]
fn fresh_process_state() {
    let mut state = HistoryState::new();
    assert!(state.history.get_all().is_empty());
    assert!(!state.history.can_undo());
    assert!(HistoryState::default().history.get_current().is_none());
    assert_eq!(AppState::new().render_cache.stats(), (0, 0));
    state.history.clear();
}

#[test]
fn search_output_is_read_by_its_first_line() {
    assert_eq!(first_output_line("/usr/bin/openscad\n"), "/usr/bin/openscad");
    assert_eq!(first_output_line("  C:\\a\\openscad.exe\r\nC:\\b\\openscad.exe\r\n"), "C:\\a\\openscad.exe");
    assert_eq!(first_output_line("\n\n /x \n /y \n"), "/x ");
    assert_eq!(first_output_line(""), "");
    assert_eq!(first_output_line(" \n\t"), "");
    assert_eq!(first_output_line("one"), "one");
    for text in ["a\r\nb", "a\rb\nc", " a \n b ", "\r\n", "a\r", "x\n\ny"] {
        assert_eq!(first_output_line(text), text.trim().lines().next().unwrap_or(""), "{:?}", text);
    }
}

#[test]
fn version_is_the_first_line() {
    assert_eq!(version_line("OpenSCAD version 2021.01\nmore"), "OpenSCAD version 2021.01");
    assert_eq!(version_line(""), "unknown");
    assert_eq!(version_line("\nx"), "");
    for text in ["a\r\nb", "a\r", " a \n", "\r\n", "x"] {
        assert_eq!(version_line(text), text.lines().next().unwrap_or("unknown"), "{:?}", text);
    }
}

#[test]
fn platforms() {
    assert_eq!(exe_name(Platform::Windows), "openscad.exe");
    assert_eq!(exe_name(Platform::MacOs), "openscad");
    assert_eq!(exe_name(Platform::Other), "openscad");
    assert_eq!(finder_command(Platform::Windows), "where");
    assert_eq!(finder_command(Platform::Other), "which");
    assert_eq!(install_candidates(Platform::Other), vec!["/usr/bin/openscad", "/usr/local/bin/openscad"]);
    assert_eq!(install_candidates(Platform::Windows).len(), 2);
    let mac = install_candidates(Platform::MacOs);
    assert_eq!(mac.len(), 6);
    assert_eq!(mac[0], "/Applications/OpenSCAD.app/Contents/MacOS/OpenSCAD");
    assert_eq!(mac[5], "/usr/local/bin/openscad");
    assert!(is_app_bundle("OpenSCAD-2021.01.app"));
    assert!(is_app_bundle("OpenSCAD.app"));
    assert!(!is_app_bundle("OpenSCAD"));
    assert!(!is_app_bundle("FreeCAD.app"));
    assert_eq!(missing_path_message("/x"), "Provided path does not exist: /x");
}
