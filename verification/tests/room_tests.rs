use room_chat::message::Message;
use room_chat::room::{Room, MAX_HISTORY};

fn msg(id: u64, room: &str, sender: &str, content: &str) -> Message {
    Message {
        id,
        room: room.to_string(),
        sender: sender.to_string(),
        content: content.to_string(),
        timestamp: 0,
    }
}

#[test]
fn new_room_is_empty() {
    let room = Room::new("lobby".to_string());
    assert_eq!(room.name, "lobby");
    assert!(room.users.is_empty());
    assert!(room.history.is_empty());
}

#[test]
fn history_is_bounded_and_fifo() {
    let mut room = Room::new("lobby".to_string());
    for i in 0..150u64 {
        room.add_message(msg(i, "lobby", "a", &format!("m{}", i)));
    }
    assert_eq!(room.history.len(), MAX_HISTORY);
    // The 50 oldest messages were evicted first.
    assert_eq!(room.history[0].id, 50);
    assert_eq!(room.history[99].id, 149);
}

#[test]
fn history_below_bound_keeps_everything() {
    let mut room = Room::new("lobby".to_string());
    for i in 0..3u64 {
        room.add_message(msg(i, "lobby", "a", "x"));
    }
    assert_eq!(room.history.len(), 3);
    assert_eq!(room.history[0].id, 0);
    assert_eq!(room.history[2].id, 2);
}

#[test]
fn add_user_is_idempotent_on_membership() {
    let mut room = Room::new("lobby".to_string());
    assert!(room.add_user("alice".to_string()));
    assert!(!room.add_user("alice".to_string()));
    assert_eq!(room.users.len(), 1);
    assert_eq!(room.users[0], "alice");
}

#[test]
fn remove_user_reports_effectiveness() {
    let mut room = Room::new("lobby".to_string());
    assert!(room.add_user("alice".to_string()));
    assert!(room.add_user("bob".to_string()));
    assert!(room.remove_user(&"alice".to_string()));
    assert!(!room.remove_user(&"alice".to_string()));
    assert_eq!(room.users, vec!["bob".to_string()]);
}

#[test]
fn contains_user_tracks_membership() {
    let mut room = Room::new("lobby".to_string());
    assert!(!room.contains_user(&"alice".to_string()));
    room.add_user("alice".to_string());
    assert!(room.contains_user(&"alice".to_string()));
}
