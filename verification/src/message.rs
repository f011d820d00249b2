//! The chat utterance value object.

use vstd::prelude::*;

verus! {

/// One chat utterance: immutable once constructed, copied by value to every
/// recipient's delivery queue. `id` is drawn at creation and only needs to
/// be collision-tolerant; `timestamp` is whole milliseconds since the UNIX
/// epoch at creation time. Neither carries any promise beyond that.
#[derive(Debug)]
pub struct Message {
    pub id: u64,
    pub room: String,
    pub sender: String,
    pub content: String,
    pub timestamp: u64,
}

/// Relies on rand::random: draws a value from the thread-local generator.
/// Nothing can be promised of a random value.
pub assume_specification<T>[ rand::random::<T> ]() -> (r: T)
    where
        rand::distributions::Standard: rand::distributions::Distribution<T>,
;

/// Relies on std::time::SystemTime::now for the wall clock; the reading is
/// reduced to whole milliseconds since the UNIX epoch (0 when the clock
/// reads before the epoch). The result depends on the machine's clock, so
/// nothing is promised of it.
#[verifier::external_body]
fn now_millis() -> u64 {
    std::time::SystemTime::now()
        .duration_since(std::time::SystemTime::UNIX_EPOCH)
        .map(|d| d.as_millis() as u64)
        .unwrap_or(0)
}

impl Clone for Message {
    /// An exact copy, as handed to each recipient of a broadcast.
    fn clone(&self) -> (r: Self)
        ensures
            r == *self,
    {
        Message {
            id: self.id,
            room: self.room.clone(),
            sender: self.sender.clone(),
            content: self.content.clone(),
            timestamp: self.timestamp,
        }
    }
}

impl Message {
    /// Wraps text addressed to a room into a message stamped with a fresh
    /// id and the current time.
    pub fn new(room: String, sender: String, content: String) -> (m: Message)
        ensures
            m.room@ == room@,
            m.sender@ == sender@,
            m.content@ == content@,
    {
        Message { id: rand::random(), room, sender, content, timestamp: now_millis() }
    }
}

} // verus!
