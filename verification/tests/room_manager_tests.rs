use room_chat::client_manager::ClientManager;
use room_chat::errors::ChatErrorKind;
use room_chat::message::Message;
use room_chat::room_manager::RoomManager;

fn msg(room: &str, sender: &str, content: &str) -> Message {
    Message {
        id: 1,
        room: room.to_string(),
        sender: sender.to_string(),
        content: content.to_string(),
        timestamp: 0,
    }
}

#[test]
fn create_room_rejects_duplicates() {
    let mut rm = RoomManager::new();
    assert!(rm.create_room("lobby".to_string()).is_ok());
    let e = rm.create_room("lobby".to_string()).unwrap_err();
    assert_eq!(e.kind, ChatErrorKind::Room);
    assert_eq!(e.message, "Room already exists");
    assert_eq!(rm.list_rooms(), vec!["lobby".to_string()]);
}

#[test]
fn join_missing_room_fails_and_changes_nothing() {
    let mut rm = RoomManager::new();
    let cm = ClientManager::new();
    rm.create_room("lobby".to_string()).unwrap();
    let e = rm
        .join_room(&"carol".to_string(), &"nonexistent".to_string(), &cm)
        .unwrap_err();
    assert_eq!(e.kind, ChatErrorKind::Room);
    assert_eq!(e.message, "Room does not exist");
    // No partial insert: the registry still holds exactly the lobby,
    // and carol is in no room.
    assert_eq!(rm.list_rooms(), vec!["lobby".to_string()]);
    assert!(rm.list_users(&"lobby".to_string()).unwrap().is_empty());
}

#[test]
fn join_twice_emits_one_notice_and_no_duplicate_member() {
    let mut rm = RoomManager::new();
    let cm = ClientManager::new();
    rm.create_room("lobby".to_string()).unwrap();
    rm.join_room(&"alice".to_string(), &"lobby".to_string(), &cm).unwrap();
    rm.join_room(&"alice".to_string(), &"lobby".to_string(), &cm).unwrap();
    let users = rm.list_users(&"lobby".to_string()).unwrap();
    assert_eq!(users, vec!["alice".to_string()]);
    let room = rm.get_room(&"lobby".to_string()).unwrap();
    assert_eq!(room.history.len(), 1);
    assert_eq!(room.history[0].sender, "System");
    assert_eq!(room.history[0].content, "alice has joined the room");
}

#[test]
fn broadcast_skips_unregistered_member_and_reaches_live_one() {
    let mut rm = RoomManager::new();
    let mut cm = ClientManager::new();
    rm.create_room("lobby".to_string()).unwrap();
    let (tx, mut rx) = tokio::sync::mpsc::channel(16);
    cm.add_client("alice".to_string(), tx).unwrap();
    rm.join_room(&"alice".to_string(), &"lobby".to_string(), &cm).unwrap();
    // bob is a member but has no registry entry (disconnected).
    rm.join_room(&"bob".to_string(), &"lobby".to_string(), &cm).unwrap();
    let r = rm.broadcast_message(&cm, msg("lobby", "alice", "hi"));
    assert!(r.is_ok());
    // alice got her own join notice, bob's join notice, and "hi".
    let mut got = Vec::new();
    while let Ok(m) = rx.try_recv() {
        got.push(m.content);
    }
    assert!(got.contains(&"hi".to_string()));
}

#[test]
fn broadcast_to_missing_room_fails() {
    let mut rm = RoomManager::new();
    let cm = ClientManager::new();
    let e = rm.broadcast_message(&cm, msg("void", "alice", "hi")).unwrap_err();
    assert_eq!(e.kind, ChatErrorKind::Room);
    assert_eq!(e.message, "Room does not exist");
}

#[test]
fn broadcast_is_recorded_in_history() {
    let mut rm = RoomManager::new();
    let cm = ClientManager::new();
    rm.create_room("lobby".to_string()).unwrap();
    rm.broadcast_message(&cm, msg("lobby", "alice", "hi")).unwrap();
    let room = rm.get_room(&"lobby".to_string()).unwrap();
    assert_eq!(room.history.len(), 1);
    assert_eq!(room.history[0].sender, "alice");
    assert_eq!(room.history[0].content, "hi");
}

#[test]
fn leave_room_removes_member_and_notifies_remaining() {
    let mut rm = RoomManager::new();
    let mut cm = ClientManager::new();
    rm.create_room("lobby".to_string()).unwrap();
    let (tx, mut rx) = tokio::sync::mpsc::channel(16);
    cm.add_client("bob".to_string(), tx).unwrap();
    rm.join_room(&"alice".to_string(), &"lobby".to_string(), &cm).unwrap();
    rm.join_room(&"bob".to_string(), &"lobby".to_string(), &cm).unwrap();
    rm.leave_room(&"alice".to_string(), &"lobby".to_string(), &cm).unwrap();
    let users = rm.list_users(&"lobby".to_string()).unwrap();
    assert_eq!(users, vec!["bob".to_string()]);
    let mut contents = Vec::new();
    while let Ok(m) = rx.try_recv() {
        contents.push(m.content);
    }
    assert!(contents.contains(&"alice has left the room".to_string()));
}

#[test]
fn leave_is_idempotent_without_second_notice() {
    let mut rm = RoomManager::new();
    let cm = ClientManager::new();
    rm.create_room("lobby".to_string()).unwrap();
    rm.join_room(&"alice".to_string(), &"lobby".to_string(), &cm).unwrap();
    rm.leave_room(&"alice".to_string(), &"lobby".to_string(), &cm).unwrap();
    rm.leave_room(&"alice".to_string(), &"lobby".to_string(), &cm).unwrap();
    let room = rm.get_room(&"lobby".to_string()).unwrap();
    // One join notice and one leave notice, nothing more.
    assert_eq!(room.history.len(), 2);
    assert_eq!(room.history[1].content, "alice has left the room");
}

#[test]
fn leave_all_clears_every_membership() {
    let mut rm = RoomManager::new();
    let cm = ClientManager::new();
    rm.create_room("red".to_string()).unwrap();
    rm.create_room("blue".to_string()).unwrap();
    rm.join_room(&"alice".to_string(), &"red".to_string(), &cm).unwrap();
    rm.join_room(&"alice".to_string(), &"blue".to_string(), &cm).unwrap();
    rm.join_room(&"bob".to_string(), &"red".to_string(), &cm).unwrap();
    rm.leave_all(&"alice".to_string(), &cm);
    assert_eq!(rm.list_users(&"red".to_string()).unwrap(), vec!["bob".to_string()]);
    assert!(rm.list_users(&"blue".to_string()).unwrap().is_empty());
    let red = rm.get_room(&"red".to_string()).unwrap();
    assert_eq!(red.history.back().unwrap().content, "alice has left the room");
}

#[test]
fn list_users_of_missing_room_fails() {
    let rm = RoomManager::new();
    let e = rm.list_users(&"void".to_string()).unwrap_err();
    assert_eq!(e.kind, ChatErrorKind::Room);
    assert_eq!(e.message, "Room does not exist");
}
