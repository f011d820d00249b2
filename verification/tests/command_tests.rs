use room_chat::command::{is_command, parse_command, Command};
use room_chat::errors::ChatErrorKind;

#[test]
fn chat_content_is_not_a_command() {
    assert!(!is_command(&"hello there".to_string()));
    assert!(!is_command(&"".to_string()));
    assert!(is_command(&"/join lobby".to_string()));
}

#[test]
fn join_with_room_parses() {
    let cmd = parse_command(&"/join lobby".to_string()).unwrap();
    assert!(matches!(cmd, Command::Join(r) if r == "lobby"));
}

#[test]
fn extra_blanks_and_trailing_words_are_tolerated() {
    let cmd = parse_command(&"/join \t  alpha beta".to_string()).unwrap();
    assert!(matches!(cmd, Command::Join(r) if r == "alpha"));
}

#[test]
fn join_without_room_is_a_usage_error() {
    let e = parse_command(&"/join".to_string()).unwrap_err();
    assert_eq!(e.kind, ChatErrorKind::Command);
    assert_eq!(e.message, "Usage: /join <room>");
    let e = parse_command(&"/join   ".to_string()).unwrap_err();
    assert_eq!(e.message, "Usage: /join <room>");
}

#[test]
fn leave_parses_and_checks_usage() {
    let cmd = parse_command(&"/leave lobby".to_string()).unwrap();
    assert!(matches!(cmd, Command::Leave(r) if r == "lobby"));
    let e = parse_command(&"/leave".to_string()).unwrap_err();
    assert_eq!(e.kind, ChatErrorKind::Command);
    assert_eq!(e.message, "Usage: /leave <room>");
}

#[test]
fn quit_and_list_take_no_argument() {
    assert!(matches!(parse_command(&"/quit".to_string()).unwrap(), Command::Quit));
    assert!(matches!(parse_command(&"/list".to_string()).unwrap(), Command::ListRooms));
}

#[test]
fn users_parses_and_checks_usage() {
    let cmd = parse_command(&"/users lobby".to_string()).unwrap();
    assert!(matches!(cmd, Command::ListUsers(r) if r == "lobby"));
    let e = parse_command(&"/users".to_string()).unwrap_err();
    assert_eq!(e.kind, ChatErrorKind::Command);
    assert_eq!(e.message, "Usage: /users <room>");
}

#[test]
fn unknown_verbs_are_rejected() {
    let e = parse_command(&"/frobnicate lobby".to_string()).unwrap_err();
    assert_eq!(e.kind, ChatErrorKind::Command);
    assert_eq!(e.message, "Unknown command");
    let e = parse_command(&"/JOIN lobby".to_string()).unwrap_err();
    assert_eq!(e.message, "Unknown command");
}
