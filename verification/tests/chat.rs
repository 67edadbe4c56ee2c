use crab_examples::chat::{parse_chat_command, parse_vision_command, with_media_marker, Action, ChatSession, Command, Message, Role};
use crab_examples::text::{contains_ascii_lowercased, strip_prefix, trim};

fn say(text: &str) -> Command {
    Command::Say(text.to_string())
}

fn contents(session: &ChatSession) -> Vec<(Role, String)> {
    session.history().iter().map(|m| (m.role, m.content.clone())).collect()
}

#[test]
fn trim_matches_std() {
    for s in ["", "   ", " a ", "\t\n x y \r\n", "\u{3000}wide\u{2028}", "\u{85}a\u{a0}", "no_space", " \u{200b} "] {
        assert_eq!(trim(s), s.trim(), "input {s:?}");
    }
}

#[test]
fn strip_prefix_matches_std() {
    assert_eq!(strip_prefix("/image cat.png", "/image "), Some("cat.png"));
    assert_eq!(strip_prefix("/image", "/image "), None);
    assert_eq!(strip_prefix("abc", ""), Some("abc"));
    assert_eq!(strip_prefix("ünï", "ü"), Some("nï"));
}

#[test]
fn lowercase_contains() {
    assert!(contains_ascii_lowercased("unsloth/LFM2.5-VL-1.6B-GGUF", "lfm"));
    assert!(contains_ascii_lowercased("models/lfm.gguf", "lfm"));
    assert!(!contains_ascii_lowercased("models/gemma-4-E4B-it-Q4_K_M.gguf", "lfm"));
    assert!(!contains_ascii_lowercased("lf", "lfm"));
    assert!(contains_ascii_lowercased("anything", ""));
}

#[test]
fn chat_commands() {
    assert_eq!(parse_chat_command("   \n"), Command::Empty);
    assert_eq!(parse_chat_command("/exit\n"), Command::Quit);
    assert_eq!(parse_chat_command(" /quit "), Command::Quit);
    assert_eq!(parse_chat_command("/q"), Command::Quit);
    assert_eq!(parse_chat_command("/clear\n"), Command::Clear);
    assert_eq!(parse_chat_command("/save\n"), Command::Save);
    assert_eq!(parse_chat_command("/image a.png\n"), say("/image a.png"));
    assert_eq!(parse_chat_command("  hello there \n"), say("hello there"));
    assert_eq!(parse_chat_command("/exit now"), say("/exit now"));
}

#[test]
fn vision_commands() {
    assert_eq!(parse_vision_command("/image   cat.png  \n"), Command::SetImage("cat.png".to_string()));
    assert_eq!(parse_vision_command("/image\n"), say("/image"));
    assert_eq!(parse_vision_command("/save\n"), say("/save"));
    assert_eq!(parse_vision_command("/clear"), Command::Clear);
    assert_eq!(parse_vision_command("/q"), Command::Quit);
    assert_eq!(parse_vision_command(""), Command::Empty);
    assert_eq!(parse_vision_command("What is this?\n"), say("What is this?"));
}

#[test]
fn session_turns() {
    let mut session = ChatSession::new("sys");
    assert!(!session.awaiting_reply());
    assert_eq!(session.handle(say("hi")), Action::Ask);
    assert!(session.awaiting_reply());
    assert_eq!(session.record_reply(Some("  hello!\n")), Some("hello!".to_string()));
    assert_eq!(
        contents(&session),
        vec![
            (Role::System, "sys".to_string()),
            (Role::User, "hi".to_string()),
            (Role::Assistant, "hello!".to_string()),
        ]
    );
}

#[test]
fn failed_turn_restores_history() {
    let mut session = ChatSession::new("sys");
    session.handle(say("one"));
    session.record_reply(Some("two"));
    let before = contents(&session);
    assert_eq!(session.handle(say("three")), Action::Ask);
    assert_eq!(session.record_reply(None), None);
    assert_eq!(contents(&session), before);
    assert!(!session.awaiting_reply());
}

#[test]
fn clear_keeps_only_system_prompt() {
    let mut session = ChatSession::new("be brief");
    session.handle(say("a"));
    session.record_reply(Some("b"));
    assert_eq!(session.handle(Command::Clear), Action::Cleared);
    assert_eq!(contents(&session), vec![(Role::System, "be brief".to_string())]);
}

#[test]
fn other_commands_leave_history() {
    let mut session = ChatSession::new("sys");
    assert_eq!(session.handle(Command::Empty), Action::Ignore);
    assert_eq!(session.handle(Command::Save), Action::Save);
    assert_eq!(session.handle(Command::Quit), Action::Quit);
    assert_eq!(session.handle(Command::SetImage("x.png".to_string())), Action::SetImage("x.png".to_string()));
    assert_eq!(contents(&session), vec![(Role::System, "sys".to_string())]);
}

#[test]
fn media_marker_goes_into_latest_user_turn() {
    let history = vec![
        Message::new(Role::System, "sys"),
        Message::new(Role::User, "first"),
        Message::new(Role::Assistant, "answer"),
        Message::new(Role::User, "second"),
    ];
    let marked = with_media_marker(&history, "<__media__>");
    assert_eq!(marked[0], history[0]);
    assert_eq!(marked[1], history[1]);
    assert_eq!(marked[2], history[2]);
    assert_eq!(marked[3], Message::new(Role::User, "<__media__>\nsecond"));
}

#[test]
fn media_marker_without_user_turn() {
    let history = vec![Message::new(Role::System, "sys"), Message::new(Role::Assistant, "a")];
    assert_eq!(with_media_marker(&history, "M"), history);
}

#[test]
fn trim_twice_is_trim_once() {
    for s in ["  a b  ", "\u{2000}x\u{3000}", "", " \t "] {
        assert_eq!(trim(trim(s)), trim(s));
    }
}
