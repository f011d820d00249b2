//! The per-connection session: its protocol state, the per-frame dispatch
//! that classifies commands against chat content and drives the two
//! registries, and the guaranteed cleanup step.
//!
//! The surrounding connection loop (transport reads and writes, locking of
//! the shared registries) lives outside this crate; it decodes one frame
//! into a `Message`, hands it to `handle_frame`, reports the reply to the
//! issuing connection only, and calls `close` exactly once when the
//! session ends, whichever way it ends.

use vstd::prelude::*;
use tokio::sync::mpsc::Sender;
use crate::client_manager::ClientManager;
use crate::command::{parse_command, is_command, spec_verb, spec_arg, spec_is_command, Command};
use crate::errors::{ChatError, ChatErrorKind};
use crate::message::Message;
use crate::room_manager::RoomManager;

verus! {

/// Protocol state of one connection. `Connecting` until the display name
/// is registered; registration failure closes the session before it ever
/// becomes active; `Active` is the steady state; `Closed` is terminal and
/// is what triggers cleanup.
#[derive(Debug, Clone, Copy, PartialEq, Eq, Structural)]
pub enum SessionState {
    Connecting,
    Authenticated,
    Active,
    Closed,
}

/// What the connection loop must send back to the issuing connection
/// after one frame: nothing, one failure notice (never broadcast), or the
/// answer to a listing command.
pub enum Reply {
    Nothing,
    Failure(ChatError),
    RoomList(Vec<String>),
    UserList(Vec<String>),
}

/// The verdict on one frame: whether the session must close, and what to
/// report back to the issuing connection.
pub struct DispatchOutcome {
    pub close: bool,
    pub reply: Reply,
}

/// One client connection's protocol session.
pub struct Session {
    pub username: String,
    pub state: SessionState,
}

impl Session {
    /// A fresh session for a connection that has not yet registered.
    pub fn new(username: String) -> (s: Session)
        ensures
            s.username@ == username@,
            s.state == SessionState::Connecting,
    {
        Session { username, state: SessionState::Connecting }
    }

    /// Registers the display name with the client registry. Success moves
    /// the session to `Authenticated`; a taken name terminates it
    /// (`Closed`) before it was ever active, leaving the registry as it
    /// was.
    pub fn authenticate(&mut self, clients: &mut ClientManager, tx: Sender<Message>) -> (r: Result<
        (),
        ChatError,
    >)
        requires
            old(self).state == SessionState::Connecting,
            old(clients).wf(),
        ensures
            final(self).username == old(self).username,
            final(clients).wf(),
            match r {
                Ok(()) => {
                    &&& final(self).state == SessionState::Authenticated
                    &&& !old(clients).spec_has_client(old(self).username@)
                    &&& final(clients).spec_entries() == old(clients).spec_entries().push(
                        (old(self).username, tx),
                    )
                    &&& final(clients).spec_has_client(old(self).username@)
                },
                Err(e) => {
                    &&& final(self).state == SessionState::Closed
                    &&& old(clients).spec_has_client(old(self).username@)
                    &&& *final(clients) == *old(clients)
                    &&& e.kind == ChatErrorKind::Authentication
                    &&& e.message@ == "Username already taken"@
                },
            },
    {
        match clients.add_client(self.username.clone(), tx) {
            Ok(()) => {
                self.state = SessionState::Authenticated;
                Ok(())
            },
            Err(e) => {
                self.state = SessionState::Closed;
                Err(e)
            },
        }
    }

    /// Enters the steady state, in which frames are dispatched.
    pub fn activate(&mut self)
        requires
            old(self).state == SessionState::Authenticated,
        ensures
            final(self).username == old(self).username,
            final(self).state == SessionState::Active,
    {
        self.state = SessionState::Active;
    }

    /// Dispatches one decoded frame. Content that does not start with `/`
    /// is chat: it is broadcast to the room the message names. Content
    /// starting with `/` is a command; a failure of any kind — unknown
    /// verb, missing argument, missing room — is reported to this
    /// connection only and never closes the session. Only `/quit` closes
    /// it.
    pub fn handle_frame(
        &mut self,
        rooms: &mut RoomManager,
        clients: &ClientManager,
        msg: Message,
    ) -> (r: DispatchOutcome)
        requires
            old(self).state == SessionState::Active,
            old(rooms).wf(),
        ensures
            final(self).username == old(self).username,
            final(rooms).wf(),
            ({
                let c = msg.content@;
                let u = old(self).username@;
                let v = spec_verb(c);
                let a = spec_arg(c);
                if !spec_is_command(c) {
                    &&& final(self).state == SessionState::Active
                    &&& !r.close
                    &&& if old(rooms).spec_has_room(msg.room@) {
                        &&& RoomManager::spec_broadcast_transition(*old(rooms), *final(rooms), msg)
                        &&& r.reply is Nothing
                    } else {
                        &&& *final(rooms) == *old(rooms)
                        &&& r.reply matches Reply::Failure(e) && e.kind == ChatErrorKind::Room
                            && e.message@ == "Room does not exist"@
                    }
                } else if v == "/join"@ {
                    &&& final(self).state == SessionState::Active
                    &&& !r.close
                    &&& if a.len() == 0 {
                        &&& *final(rooms) == *old(rooms)
                        &&& r.reply matches Reply::Failure(e) && e.kind == ChatErrorKind::Command
                            && e.message@ == "Usage: /join <room>"@
                    } else if old(rooms).spec_has_room(a) {
                        &&& RoomManager::spec_join_transition(*old(rooms), *final(rooms), u, a)
                        &&& r.reply is Nothing
                    } else {
                        &&& *final(rooms) == *old(rooms)
                        &&& r.reply matches Reply::Failure(e) && e.kind == ChatErrorKind::Room
                            && e.message@ == "Room does not exist"@
                    }
                } else if v == "/leave"@ {
                    &&& final(self).state == SessionState::Active
                    &&& !r.close
                    &&& if a.len() == 0 {
                        &&& *final(rooms) == *old(rooms)
                        &&& r.reply matches Reply::Failure(e) && e.kind == ChatErrorKind::Command
                            && e.message@ == "Usage: /leave <room>"@
                    } else if old(rooms).spec_has_room(a) {
                        &&& RoomManager::spec_leave_transition(*old(rooms), *final(rooms), u, a)
                        &&& r.reply is Nothing
                    } else {
                        &&& *final(rooms) == *old(rooms)
                        &&& r.reply matches Reply::Failure(e) && e.kind == ChatErrorKind::Room
                            && e.message@ == "Room does not exist"@
                    }
                } else if v == "/quit"@ {
                    &&& final(self).state == SessionState::Closed
                    &&& r.close
                    &&& *final(rooms) == *old(rooms)
                    &&& r.reply is Nothing
                } else if v == "/list"@ {
                    &&& final(self).state == SessionState::Active
                    &&& !r.close
                    &&& *final(rooms) == *old(rooms)
                    &&& r.reply matches Reply::RoomList(names) && names@.len() == old(
                        rooms,
                    ).spec_rooms().len() && (forall|i: int|
                        0 <= i < names@.len() ==> (#[trigger] names@[i])@ == old(
                            rooms,
                        ).spec_rooms()[i].name@)
                } else if v == "/users"@ {
                    &&& final(self).state == SessionState::Active
                    &&& !r.close
                    &&& *final(rooms) == *old(rooms)
                    &&& if a.len() == 0 {
                        r.reply matches Reply::Failure(e) && e.kind == ChatErrorKind::Command
                            && e.message@ == "Usage: /users <room>"@
                    } else if old(rooms).spec_has_room(a) {
                        r.reply matches Reply::UserList(users) && exists|i: int|
                            0 <= i < old(rooms).spec_rooms().len()
                                && (#[trigger] old(rooms).spec_rooms()[i]).name@ == a
                                && users@.len() == old(rooms).spec_rooms()[i].users@.len()
                                && (forall|j: int|
                                0 <= j < users@.len() ==> (#[trigger] users@[j])@ == old(
                                    rooms,
                                ).spec_rooms()[i].users@[j]@)
                    } else {
                        r.reply matches Reply::Failure(e) && e.kind == ChatErrorKind::Room
                            && e.message@ == "Room does not exist"@
                    }
                } else {
                    &&& final(self).state == SessionState::Active
                    &&& !r.close
                    &&& *final(rooms) == *old(rooms)
                    &&& r.reply matches Reply::Failure(e) && e.kind == ChatErrorKind::Command
                        && e.message@ == "Unknown command"@
                }
            }),
    {
        proof {
            reveal_strlit("/join");
            reveal_strlit("/leave");
            reveal_strlit("/quit");
            reveal_strlit("/list");
            reveal_strlit("/users");
            assert("/join"@.len() == 5);
            assert("/leave"@.len() == 6);
            assert("/quit"@.len() == 5);
            assert("/list"@.len() == 5);
            assert("/users"@.len() == 6);
            assert("/join"@[1] == 'j');
            assert("/quit"@[1] == 'q');
            assert("/list"@[1] == 'l');
            assert("/leave"@[1] == 'l');
            assert("/users"@[1] == 'u');
            assert("/join"@ != "/leave"@);
            assert("/join"@ != "/quit"@);
            assert("/join"@ != "/list"@);
            assert("/join"@ != "/users"@);
            assert("/leave"@ != "/quit"@);
            assert("/leave"@ != "/list"@);
            assert("/leave"@ != "/users"@);
            assert("/quit"@ != "/list"@);
            assert("/quit"@ != "/users"@);
            assert("/list"@ != "/users"@);
        }
        if !is_command(&msg.content) {
            match rooms.broadcast_message(clients, msg) {
                Ok(()) => DispatchOutcome { close: false, reply: Reply::Nothing },
                Err(e) => DispatchOutcome { close: false, reply: Reply::Failure(e) },
            }
        } else {
            match parse_command(&msg.content) {
                Ok(Command::Join(room)) => {
                    match rooms.join_room(&self.username, &room, clients) {
                        Ok(()) => DispatchOutcome { close: false, reply: Reply::Nothing },
                        Err(e) => DispatchOutcome { close: false, reply: Reply::Failure(e) },
                    }
                },
                Ok(Command::Leave(room)) => {
                    match rooms.leave_room(&self.username, &room, clients) {
                        Ok(()) => DispatchOutcome { close: false, reply: Reply::Nothing },
                        Err(e) => DispatchOutcome { close: false, reply: Reply::Failure(e) },
                    }
                },
                Ok(Command::Quit) => {
                    self.state = SessionState::Closed;
                    DispatchOutcome { close: true, reply: Reply::Nothing }
                },
                Ok(Command::ListRooms) => {
                    DispatchOutcome { close: false, reply: Reply::RoomList(rooms.list_rooms()) }
                },
                Ok(Command::ListUsers(room)) => {
                    match rooms.list_users(&room) {
                        Ok(users) => DispatchOutcome {
                            close: false,
                            reply: Reply::UserList(users),
                        },
                        Err(e) => DispatchOutcome { close: false, reply: Reply::Failure(e) },
                    }
                },
                Err(e) => DispatchOutcome { close: false, reply: Reply::Failure(e) },
            }
        }
    }

    /// The guaranteed cleanup step, run exactly once however the session
    /// ended: the display name is unregistered (idempotently — a name
    /// already gone is not an error here), and the user implicitly leaves
    /// every room it was still in, with the usual departure notices.
    pub fn close(&mut self, rooms: &mut RoomManager, clients: &mut ClientManager)
        requires
            old(rooms).wf(),
            old(clients).wf(),
        ensures
            final(self).username == old(self).username,
            final(self).state == SessionState::Closed,
            final(rooms).wf(),
            final(clients).wf(),
            !final(clients).spec_has_client(old(self).username@),
            forall|n: Seq<char>|
                n != old(self).username@ ==> final(clients).spec_has_client(n) == old(
                    clients,
                ).spec_has_client(n),
            RoomManager::spec_leave_all_transition(*old(rooms), *final(rooms), old(
                self,
            ).username@),
    {
        let _ = clients.remove_client(&self.username);
        rooms.leave_all(&self.username, clients);
        self.state = SessionState::Closed;
    }
}

} // verus!
