//! State behind the terminal client: the messages shown, the input line
//! being edited, and the room new chat is addressed to. The terminal loop
//! itself (drawing, raw key events) lives outside this crate; it reports
//! each keystroke here and performs the action handed back.

use vstd::prelude::*;
use tokio::sync::mpsc::Sender;
use crate::message::Message;

verus! {

/// One keystroke, as the terminal loop reports it.
#[derive(Debug, Clone, Copy, PartialEq, Eq, Structural)]
pub enum KeyInput {
    Enter,
    Char(char),
    Backspace,
    Esc,
    Other,
}

/// What the terminal loop must do after one keystroke: nothing, send one
/// message, or exit.
pub enum UiAction {
    Idle,
    Send(Message),
    Quit,
}

/// Relies on std's String::push: appends one character.
#[verifier::external_body]
fn push_char(s: &mut String, c: char)
    ensures
        final(s)@ == old(s)@.push(c),
{
    s.push(c);
}

/// Relies on std's String::pop: removes and returns the last character,
/// or returns nothing from an empty string.
#[verifier::external_body]
fn pop_char(s: &mut String) -> (r: Option<char>)
    ensures
        match r {
            Some(c) => old(s)@.len() > 0 && c == old(s)@.last() && final(s)@ == old(
                s,
            )@.drop_last(),
            None => old(s)@.len() == 0 && final(s)@ == old(s)@,
        },
{
    s.pop()
}

/// The client's display state, and the handle its own outbound messages
/// are queued on.
pub struct UI {
    pub messages: Vec<Message>,
    pub input: String,
    pub current_room: String,
    pub tx: Sender<Message>,
}

impl UI {
    /// A fresh client view: nothing shown, nothing typed, addressed to
    /// the default room.
    pub fn new(tx: Sender<Message>) -> (ui: UI)
        ensures
            ui.messages@ == Seq::<Message>::empty(),
            ui.input@ == Seq::<char>::empty(),
            ui.current_room@ == "lobby"@,
    {
        UI { messages: Vec::new(), input: String::new(), current_room: "lobby".to_owned(), tx }
    }

    /// Appends one received message to the pane.
    pub fn add_message(&mut self, msg: Message)
        ensures
            final(self).messages@ == old(self).messages@.push(msg),
            final(self).input == old(self).input,
            final(self).current_room == old(self).current_room,
            final(self).tx == old(self).tx,
    {
        self.messages.push(msg);
    }

    /// Changes the room new chat is addressed to.
    pub fn set_room(&mut self, room: String)
        ensures
            final(self).current_room@ == room@,
            final(self).messages == old(self).messages,
            final(self).input == old(self).input,
            final(self).tx == old(self).tx,
    {
        self.current_room = room;
    }

    /// Applies one keystroke to the input line. Enter on a non-empty line
    /// clears it and hands back a message carrying exactly the typed text,
    /// addressed to the current room; Enter on an empty line does nothing.
    /// Characters append, Backspace removes the last character, Esc asks
    /// the loop to exit.
    pub fn handle_key(&mut self, key: KeyInput) -> (a: UiAction)
        ensures
            final(self).messages == old(self).messages,
            final(self).current_room == old(self).current_room,
            final(self).tx == old(self).tx,
            match key {
                KeyInput::Enter => if old(self).input@.len() == 0 {
                    final(self).input == old(self).input && a is Idle
                } else {
                    &&& final(self).input@ == Seq::<char>::empty()
                    &&& a matches UiAction::Send(m) && m.room@ == old(self).current_room@
                        && m.sender@ == "you"@ && m.content@ == old(self).input@
                },
                KeyInput::Char(c) => final(self).input@ == old(self).input@.push(c) && a is Idle,
                KeyInput::Backspace => a is Idle && if old(self).input@.len() == 0 {
                    final(self).input@ == old(self).input@
                } else {
                    final(self).input@ == old(self).input@.drop_last()
                },
                KeyInput::Esc => final(self).input == old(self).input && a is Quit,
                KeyInput::Other => final(self).input == old(self).input && a is Idle,
            },
    {
        match key {
            KeyInput::Enter => {
                if self.input.as_str().is_empty() {
                    UiAction::Idle
                } else {
                    let content = self.input.clone();
                    self.input = String::new();
                    let m = Message::new(self.current_room.clone(), "you".to_owned(), content);
                    UiAction::Send(m)
                }
            },
            KeyInput::Char(c) => {
                push_char(&mut self.input, c);
                UiAction::Idle
            },
            KeyInput::Backspace => {
                let _ = pop_char(&mut self.input);
                UiAction::Idle
            },
            KeyInput::Esc => UiAction::Quit,
            KeyInput::Other => UiAction::Idle,
        }
    }
}

} // verus!
