use room_chat::message::Message;
use room_chat::ui::{KeyInput, UiAction, UI};

fn fresh_ui() -> UI {
    let (tx, _rx) = tokio::sync::mpsc::channel(8);
    UI::new(tx)
}

#[test]
fn new_ui_starts_in_the_lobby_with_nothing_typed() {
    let ui = fresh_ui();
    assert_eq!(ui.current_room, "lobby");
    assert!(ui.input.is_empty());
    assert!(ui.messages.is_empty());
}

#[test]
fn typed_characters_accumulate_and_enter_sends_them() {
    let mut ui = fresh_ui();
    assert!(matches!(ui.handle_key(KeyInput::Char('h')), UiAction::Idle));
    assert!(matches!(ui.handle_key(KeyInput::Char('i')), UiAction::Idle));
    assert_eq!(ui.input, "hi");
    let action = ui.handle_key(KeyInput::Enter);
    match action {
        UiAction::Send(m) => {
            assert_eq!(m.content, "hi");
            assert_eq!(m.room, "lobby");
            assert_eq!(m.sender, "you");
        },
        _ => panic!("expected a send"),
    }
    assert!(ui.input.is_empty());
}

#[test]
fn backspace_edits_the_input_line() {
    let mut ui = fresh_ui();
    ui.handle_key(KeyInput::Char('h'));
    ui.handle_key(KeyInput::Char('i'));
    ui.handle_key(KeyInput::Char('t'));
    assert!(matches!(ui.handle_key(KeyInput::Backspace), UiAction::Idle));
    match ui.handle_key(KeyInput::Enter) {
        UiAction::Send(m) => assert_eq!(m.content, "hi"),
        _ => panic!("expected a send"),
    }
}

#[test]
fn enter_on_an_empty_line_does_nothing() {
    let mut ui = fresh_ui();
    assert!(matches!(ui.handle_key(KeyInput::Enter), UiAction::Idle));
    assert!(matches!(ui.handle_key(KeyInput::Backspace), UiAction::Idle));
    assert!(matches!(ui.handle_key(KeyInput::Other), UiAction::Idle));
}

#[test]
fn escape_asks_the_loop_to_exit() {
    let mut ui = fresh_ui();
    ui.handle_key(KeyInput::Char('x'));
    assert!(matches!(ui.handle_key(KeyInput::Esc), UiAction::Quit));
    // The typed text is kept; only the loop decides to stop.
    assert_eq!(ui.input, "x");
}

#[test]
fn messages_are_shown_in_arrival_order_and_room_can_change() {
    let mut ui = fresh_ui();
    let m = Message {
        id: 3,
        room: "lobby".to_string(),
        sender: "bob".to_string(),
        content: "hey".to_string(),
        timestamp: 0,
    };
    ui.add_message(m.clone());
    ui.add_message(m);
    assert_eq!(ui.messages.len(), 2);
    assert_eq!(ui.messages[1].content, "hey");
    ui.set_room("attic".to_string());
    assert_eq!(ui.current_room, "attic");
    match ui.handle_key(KeyInput::Char('a')) {
        UiAction::Idle => {},
        _ => panic!("expected no action"),
    }
    match ui.handle_key(KeyInput::Enter) {
        UiAction::Send(m) => assert_eq!(m.room, "attic"),
        _ => panic!("expected a send"),
    }
}
