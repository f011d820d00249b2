use room_chat::client_manager::ClientManager;
use room_chat::errors::ChatErrorKind;
use room_chat::message::Message;
use room_chat::room_manager::RoomManager;
use room_chat::session::{Reply, Session, SessionState};

fn msg(room: &str, sender: &str, content: &str) -> Message {
    Message {
        id: 1,
        room: room.to_string(),
        sender: sender.to_string(),
        content: content.to_string(),
        timestamp: 0,
    }
}

#[test]
fn alice_chats_and_bob_sees_the_replay_in_order() {
    let mut rooms = RoomManager::new();
    let mut clients = ClientManager::new();
    rooms.create_room("lobby".to_string()).unwrap();

    let (atx, _arx) = tokio::sync::mpsc::channel(100);
    let mut alice = Session::new("alice".to_string());
    alice.authenticate(&mut clients, atx).unwrap();
    alice.activate();
    let out = alice.handle_frame(&mut rooms, &clients, msg("lobby", "alice", "/join lobby"));
    assert!(!out.close);
    assert!(matches!(out.reply, Reply::Nothing));
    let out = alice.handle_frame(&mut rooms, &clients, msg("lobby", "alice", "hi"));
    assert!(!out.close);

    // The room's history holds exactly one chat message from alice.
    let lobby = rooms.get_room(&"lobby".to_string()).unwrap();
    let from_alice: Vec<_> = lobby.history.iter().filter(|m| m.sender == "alice").collect();
    assert_eq!(from_alice.len(), 1);
    assert_eq!(from_alice[0].content, "hi");

    // bob joins afterwards and receives alice's join notice and "hi",
    // in that order, on his own outbound channel.
    let (btx, mut brx) = tokio::sync::mpsc::channel(100);
    let mut bob = Session::new("bob".to_string());
    bob.authenticate(&mut clients, btx).unwrap();
    bob.activate();
    let out = bob.handle_frame(&mut rooms, &clients, msg("lobby", "bob", "/join lobby"));
    assert!(!out.close);
    let m1 = brx.try_recv().unwrap();
    assert_eq!(m1.sender, "System");
    assert_eq!(m1.content, "alice has joined the room");
    let m2 = brx.try_recv().unwrap();
    assert_eq!(m2.sender, "alice");
    assert_eq!(m2.content, "hi");
    let m3 = brx.try_recv().unwrap();
    assert_eq!(m3.content, "bob has joined the room");
    assert!(brx.try_recv().is_err());
}

#[test]
fn second_registration_of_a_name_closes_that_session() {
    let mut clients = ClientManager::new();
    let (tx1, _rx1) = tokio::sync::mpsc::channel(8);
    let (tx2, _rx2) = tokio::sync::mpsc::channel(8);
    let mut first = Session::new("alice".to_string());
    assert!(first.authenticate(&mut clients, tx1).is_ok());
    assert_eq!(first.state, SessionState::Authenticated);
    let mut second = Session::new("alice".to_string());
    let e = second.authenticate(&mut clients, tx2).unwrap_err();
    assert_eq!(e.kind, ChatErrorKind::Authentication);
    assert_eq!(e.message, "Username already taken");
    assert_eq!(second.state, SessionState::Closed);
}

#[test]
fn quit_closes_the_session() {
    let mut rooms = RoomManager::new();
    let mut clients = ClientManager::new();
    let (tx, _rx) = tokio::sync::mpsc::channel(8);
    let mut s = Session::new("alice".to_string());
    s.authenticate(&mut clients, tx).unwrap();
    s.activate();
    let out = s.handle_frame(&mut rooms, &clients, msg("lobby", "alice", "/quit"));
    assert!(out.close);
    assert!(matches!(out.reply, Reply::Nothing));
    assert_eq!(s.state, SessionState::Closed);
}

#[test]
fn command_failures_are_reported_locally_and_do_not_close() {
    let mut rooms = RoomManager::new();
    let mut clients = ClientManager::new();
    rooms.create_room("lobby".to_string()).unwrap();
    let (tx, _rx) = tokio::sync::mpsc::channel(8);
    let mut s = Session::new("alice".to_string());
    s.authenticate(&mut clients, tx).unwrap();
    s.activate();

    let out = s.handle_frame(&mut rooms, &clients, msg("lobby", "alice", "/frobnicate"));
    assert!(!out.close);
    assert!(matches!(out.reply, Reply::Failure(e)
        if e.kind == ChatErrorKind::Command && e.message == "Unknown command"));

    let out = s.handle_frame(&mut rooms, &clients, msg("lobby", "alice", "/join"));
    assert!(!out.close);
    assert!(matches!(out.reply, Reply::Failure(e) if e.message == "Usage: /join <room>"));

    let out = s.handle_frame(&mut rooms, &clients, msg("lobby", "alice", "/join void"));
    assert!(!out.close);
    assert!(matches!(out.reply, Reply::Failure(e)
        if e.kind == ChatErrorKind::Room && e.message == "Room does not exist"));

    // A chat message to a missing room is also a local failure only.
    let out = s.handle_frame(&mut rooms, &clients, msg("void", "alice", "hello"));
    assert!(!out.close);
    assert!(matches!(out.reply, Reply::Failure(e) if e.message == "Room does not exist"));
    assert_eq!(s.state, SessionState::Active);
}

#[test]
fn listing_commands_answer_the_issuing_connection() {
    let mut rooms = RoomManager::new();
    let mut clients = ClientManager::new();
    rooms.create_room("lobby".to_string()).unwrap();
    rooms.create_room("attic".to_string()).unwrap();
    let (tx, _rx) = tokio::sync::mpsc::channel(8);
    let mut s = Session::new("alice".to_string());
    s.authenticate(&mut clients, tx).unwrap();
    s.activate();
    let _ = s.handle_frame(&mut rooms, &clients, msg("lobby", "alice", "/join lobby"));

    let out = s.handle_frame(&mut rooms, &clients, msg("lobby", "alice", "/list"));
    assert!(matches!(out.reply, Reply::RoomList(names)
        if names == vec!["lobby".to_string(), "attic".to_string()]));

    let out = s.handle_frame(&mut rooms, &clients, msg("lobby", "alice", "/users lobby"));
    assert!(matches!(out.reply, Reply::UserList(users) if users == vec!["alice".to_string()]));
}

#[test]
fn close_unregisters_and_leaves_every_room() {
    let mut rooms = RoomManager::new();
    let mut clients = ClientManager::new();
    rooms.create_room("lobby".to_string()).unwrap();
    let (tx, _rx) = tokio::sync::mpsc::channel(8);
    let mut s = Session::new("alice".to_string());
    s.authenticate(&mut clients, tx).unwrap();
    s.activate();
    let _ = s.handle_frame(&mut rooms, &clients, msg("lobby", "alice", "/join lobby"));
    assert_eq!(rooms.list_users(&"lobby".to_string()).unwrap(), vec!["alice".to_string()]);

    s.close(&mut rooms, &mut clients);
    assert_eq!(s.state, SessionState::Closed);
    assert!(rooms.list_users(&"lobby".to_string()).unwrap().is_empty());
    // The name is free again, and closing twice is harmless.
    let (tx2, _rx2) = tokio::sync::mpsc::channel(8);
    s.close(&mut rooms, &mut clients);
    let mut again = Session::new("alice".to_string());
    assert!(again.authenticate(&mut clients, tx2).is_ok());
}
