//! The room registry: authoritative store of all rooms, and the single
//! choke-point for membership changes and broadcast routing.
//!
//! Fan-out goes through the client registry: every current member with a
//! live entry gets a copy of the message on its outbound queue, best
//! effort. A member without an entry, or with a full or closed queue, is
//! skipped; one unreachable recipient never aborts delivery to the rest.

use vstd::prelude::*;
use vstd::string::StringExecFns;
use crate::client_manager::ClientManager;
use crate::errors::{ChatError, ChatErrorKind};
use crate::message::Message;
use crate::room::Room;

verus! {

/// No two rooms share a name.
pub open spec fn names_unique(s: Seq<Room>) -> bool {
    forall|i: int, j: int| 0 <= i < j < s.len() ==> s[i].name@ != s[j].name@
}

/// Owns every room; rooms are created explicitly and never destroyed.
pub struct RoomManager {
    rooms: Vec<Room>,
}

impl RoomManager {
    /// The rooms, in creation order.
    pub closed spec fn spec_rooms(self) -> Seq<Room> {
        self.rooms@
    }

    /// Structural invariant: unique names, and every room well-formed.
    pub open spec fn wf(self) -> bool {
        &&& names_unique(self.spec_rooms())
        &&& forall|i: int|
            0 <= i < self.spec_rooms().len() ==> (#[trigger] self.spec_rooms()[i]).wf()
    }

    /// Whether a room of this name exists.
    pub open spec fn spec_has_room(self, name: Seq<char>) -> bool {
        exists|i: int|
            0 <= i < self.spec_rooms().len() && self.spec_rooms()[i].name@ == name
    }

    /// Whether `user` is a member of the room named `room`.
    pub open spec fn spec_is_member(self, user: Seq<char>, room: Seq<char>) -> bool {
        exists|i: int|
            0 <= i < self.spec_rooms().len() && self.spec_rooms()[i].name@ == room
                && self.spec_rooms()[i].spec_has_user(user)
    }

    /// The system notice that an effective join emits.
    pub open spec fn is_join_notice(m: Message, user: Seq<char>, room: Seq<char>) -> bool {
        &&& m.room@ == room
        &&& m.sender@ == "System"@
        &&& m.content@ == user + " has joined the room"@
    }

    /// The system notice that an effective leave emits.
    pub open spec fn is_leave_notice(m: Message, user: Seq<char>, room: Seq<char>) -> bool {
        &&& m.room@ == room
        &&& m.sender@ == "System"@
        &&& m.content@ == user + " has left the room"@
    }

    /// How one room changes under an effective join by `user`: the user is
    /// appended to the membership and exactly one join notice is recorded.
    pub open spec fn spec_room_joined(or: Room, nr: Room, user: Seq<char>) -> bool {
        &&& nr.name == or.name
        &&& nr.users@.len() == or.users@.len() + 1
        &&& nr.users@.subrange(0, or.users@.len() as int) == or.users@
        &&& nr.users@.last()@ == user
        &&& exists|m: Message|
            #[trigger] Self::is_join_notice(m, user, or.name@)
                && nr.history@ == Room::spec_record(or.history@, m)
    }

    /// How one room changes under an effective leave by `user`: the user's
    /// single entry is removed and exactly one leave notice is recorded.
    pub open spec fn spec_room_left(or: Room, nr: Room, user: Seq<char>) -> bool {
        &&& nr.name == or.name
        &&& !nr.spec_has_user(user)
        &&& exists|k: int|
            0 <= k < or.users@.len() && or.users@[k]@ == user && nr.users@ == or.users@.remove(
                k,
            )
        &&& exists|m: Message|
            #[trigger] Self::is_leave_notice(m, user, or.name@)
                && nr.history@ == Room::spec_record(or.history@, m)
    }

    /// How the whole registry changes under an effective or idempotent
    /// join of `user` into the room named `room` (which must exist): only
    /// that room changes, and only when the user was not yet a member.
    pub open spec fn spec_join_transition(
        pre: RoomManager,
        post: RoomManager,
        user: Seq<char>,
        room: Seq<char>,
    ) -> bool {
        &&& post.spec_rooms().len() == pre.spec_rooms().len()
        &&& (forall|i: int|
            0 <= i < pre.spec_rooms().len() ==> {
                let or = #[trigger] pre.spec_rooms()[i];
                let nr = post.spec_rooms()[i];
                if or.name@ == room {
                    if or.spec_has_user(user) {
                        nr == or
                    } else {
                        Self::spec_room_joined(or, nr, user)
                    }
                } else {
                    nr == or
                }
            })
        &&& post.spec_is_member(user, room)
    }

    /// How the whole registry changes under an effective or idempotent
    /// leave of `user` from the room named `room` (which must exist).
    pub open spec fn spec_leave_transition(
        pre: RoomManager,
        post: RoomManager,
        user: Seq<char>,
        room: Seq<char>,
    ) -> bool {
        &&& post.spec_rooms().len() == pre.spec_rooms().len()
        &&& (forall|i: int|
            0 <= i < pre.spec_rooms().len() ==> {
                let or = #[trigger] pre.spec_rooms()[i];
                let nr = post.spec_rooms()[i];
                if or.name@ == room {
                    if or.spec_has_user(user) {
                        Self::spec_room_left(or, nr, user)
                    } else {
                        nr == or
                    }
                } else {
                    nr == or
                }
            })
        &&& !post.spec_is_member(user, room)
    }

    /// How the whole registry changes when `m` is broadcast to the room it
    /// names (which must exist): that room records the message, membership
    /// and every other room are untouched.
    pub open spec fn spec_broadcast_transition(pre: RoomManager, post: RoomManager, m: Message)
        -> bool {
        &&& post.spec_rooms().len() == pre.spec_rooms().len()
        &&& (forall|i: int|
            0 <= i < pre.spec_rooms().len() ==> {
                let or = #[trigger] pre.spec_rooms()[i];
                let nr = post.spec_rooms()[i];
                if or.name@ == m.room@ {
                    nr.name == or.name && nr.users == or.users && nr.history@
                        == Room::spec_record(or.history@, m)
                } else {
                    nr == or
                }
            })
    }

    /// How the whole registry changes when `user` leaves every room it is
    /// in: each such room sees exactly the change an effective leave makes,
    /// every other room is untouched, and afterwards the user is a member
    /// of no room.
    pub open spec fn spec_leave_all_transition(
        pre: RoomManager,
        post: RoomManager,
        user: Seq<char>,
    ) -> bool {
        &&& post.spec_rooms().len() == pre.spec_rooms().len()
        &&& (forall|i: int|
            0 <= i < pre.spec_rooms().len() ==> {
                let or = #[trigger] pre.spec_rooms()[i];
                let nr = post.spec_rooms()[i];
                if or.spec_has_user(user) {
                    Self::spec_room_left(or, nr, user)
                } else {
                    nr == or
                }
            })
        &&& (forall|room: Seq<char>| !post.spec_is_member(user, room))
    }

    /// An empty registry: no rooms at all.
    pub fn new() -> (r: RoomManager)
        ensures
            r.wf(),
            r.spec_rooms().len() == 0,
            forall|n: Seq<char>| !r.spec_has_room(n),
    {
        RoomManager { rooms: Vec::new() }
    }

    /// Index of the room named `name`, if one exists.
    fn find_room(&self, name: &String) -> (r: Option<usize>)
        ensures
            match r {
                Some(i) => i < self.spec_rooms().len() && self.spec_rooms()[i as int].name@
                    == name@,
                None => !self.spec_has_room(name@),
            },
    {
        let n = self.rooms.len();
        let mut i: usize = 0;
        while i < n
            invariant
                n == self.spec_rooms().len(),
                i <= n,
                forall|j: int| 0 <= j < i ==> self.spec_rooms()[j].name@ != name@,
            decreases n - i,
        {
            if self.rooms[i].name == *name {
                return Some(i);
            }
            i = i + 1;
        }
        None
    }

    /// Read access to the room named `name`.
    pub fn get_room(&self, name: &String) -> (r: Option<&Room>)
        ensures
            match r {
                Some(room) => {
                    &&& self.spec_has_room(name@)
                    &&& room.name@ == name@
                    &&& exists|i: int|
                        0 <= i < self.spec_rooms().len() && self.spec_rooms()[i] == *room
                },
                None => !self.spec_has_room(name@),
            },
    {
        match self.find_room(name) {
            Some(i) => Some(&self.rooms[i]),
            None => None,
        }
    }

    /// Creates an empty room under `name`. Fails if and only if a room of
    /// that name already exists; on failure nothing changes.
    pub fn create_room(&mut self, name: String) -> (r: Result<(), ChatError>)
        requires
            old(self).wf(),
        ensures
            final(self).wf(),
            match r {
                Ok(()) => {
                    &&& !old(self).spec_has_room(name@)
                    &&& final(self).spec_rooms().len() == old(self).spec_rooms().len() + 1
                    &&& final(self).spec_rooms().subrange(
                        0,
                        old(self).spec_rooms().len() as int,
                    ) == old(self).spec_rooms()
                    &&& final(self).spec_rooms().last().name@ == name@
                    &&& final(self).spec_rooms().last().users@.len() == 0
                    &&& final(self).spec_rooms().last().history@.len() == 0
                    &&& final(self).spec_has_room(name@)
                },
                Err(e) => {
                    &&& old(self).spec_has_room(name@)
                    &&& *final(self) == *old(self)
                    &&& e.kind == ChatErrorKind::Room
                    &&& e.message@ == "Room already exists"@
                },
            },
    {
        if self.find_room(&name).is_some() {
            return Err(ChatError::new(ChatErrorKind::Room, "Room already exists".to_owned()));
        }
        let ghost prev = self.spec_rooms();
        let ghost newname = name@;
        let room = Room::new(name);
        self.rooms.push(room);
        proof {
            assert(self.spec_rooms() =~= prev.push(self.spec_rooms().last()));
            assert(self.spec_rooms().subrange(0, prev.len() as int) =~= prev);
            assert forall|i: int, j: int|
                0 <= i < j < self.spec_rooms().len()
                    implies self.spec_rooms()[i].name@ != self.spec_rooms()[j].name@ by {
                assert(self.spec_rooms()[i] == prev[i]);
                if j < prev.len() {
                    assert(self.spec_rooms()[j] == prev[j]);
                    assert(old(self).spec_rooms()[i] == prev[i]);
                    assert(old(self).spec_rooms()[j] == prev[j]);
                } else {
                    assert(old(self).spec_rooms()[i] == prev[i]);
                    assert(self.spec_rooms()[j].name@ == newname);
                }
            }
            assert forall|i: int| 0 <= i < self.spec_rooms().len()
                implies (#[trigger] self.spec_rooms()[i]).wf() by {
                if i < prev.len() {
                    assert(old(self).spec_rooms()[i] == prev[i]);
                }
            }
        }
        Ok(())
    }

    /// Adds `username` to the room named `room_name` and announces it. A
    /// missing room fails with `Room`/"Room does not exist" and changes
    /// nothing. Joining a room one is already in is a no-op: no error, no
    /// second notice. An effective join replays the room's history to the
    /// joining member's queue, appends the member, and then records and
    /// fans out exactly one join notice.
    pub fn join_room(&mut self, username: &String, room_name: &String, clients: &ClientManager)
        -> (r: Result<(), ChatError>)
        requires
            old(self).wf(),
        ensures
            final(self).wf(),
            final(self).spec_rooms().len() == old(self).spec_rooms().len(),
            match r {
                Ok(()) => {
                    &&& old(self).spec_has_room(room_name@)
                    &&& Self::spec_join_transition(*old(self), *final(self), username@, room_name@)
                },
                Err(e) => {
                    &&& !old(self).spec_has_room(room_name@)
                    &&& *final(self) == *old(self)
                    &&& e.kind == ChatErrorKind::Room
                    &&& e.message@ == "Room does not exist"@
                },
            },
    {
        let idx = match self.find_room(room_name) {
            Some(i) => i,
            None => {
                return Err(
                    ChatError::new(ChatErrorKind::Room, "Room does not exist".to_owned()),
                );
            },
        };
        let ghost prev = self.spec_rooms();
        let ghost pos = idx as int;
        proof {
            assert(prev[pos].wf());
        }
        let mut room = self.rooms.remove(idx);
        let was_member = room.contains_user(username);
        if !was_member {
            // Replay the existing history to the joining member, so a new
            // member sees what was said before it arrived.
            let hn = room.history.len();
            let mut k: usize = 0;
            while k < hn
                invariant
                    hn == room.history@.len(),
                    k <= hn,
                decreases hn - k,
            {
                let _ = clients.send_to(username, room.history[k].clone());
                k = k + 1;
            }
            let _ = room.add_user(username.clone());
            let text = username.clone().concat(" has joined the room");
            let notice = Message::new(room_name.clone(), "System".to_owned(), text);
            fan_out(clients, &room, &notice);
            room.add_message(notice);
            proof {
                assert(room.users@.subrange(0, prev[pos].users@.len() as int) =~= prev[
                    pos
                ].users@);
                assert(Self::is_join_notice(notice, username@, prev[pos].name@));
                assert(Self::spec_room_joined(prev[pos], room, username@));
            }
        }
        self.rooms.insert(idx, room);
        proof {
            assert(self.spec_rooms() =~= prev.update(pos, room));
            lemma_names_unique_pinpoint(prev, pos, prev[pos].name@);
            assert forall|i: int| 0 <= i < self.spec_rooms().len()
                implies (#[trigger] self.spec_rooms()[i]).wf() by {
                if i != pos {
                    assert(old(self).spec_rooms()[i] == prev[i]);
                }
            }
            assert(self.spec_rooms()[pos].spec_has_user(username@));
        }
        Ok(())
    }

    /// Removes `username` from the room named `room_name` and announces it.
    /// A missing room fails with `Room`/"Room does not exist" and changes
    /// nothing. Leaving a room one is not in is a no-op: no error, no
    /// notice. An effective leave removes the member and then records and
    /// fans out exactly one leave notice to the remaining members.
    pub fn leave_room(&mut self, username: &String, room_name: &String, clients: &ClientManager)
        -> (r: Result<(), ChatError>)
        requires
            old(self).wf(),
        ensures
            final(self).wf(),
            final(self).spec_rooms().len() == old(self).spec_rooms().len(),
            match r {
                Ok(()) => {
                    &&& old(self).spec_has_room(room_name@)
                    &&& Self::spec_leave_transition(*old(self), *final(self), username@, room_name@)
                },
                Err(e) => {
                    &&& !old(self).spec_has_room(room_name@)
                    &&& *final(self) == *old(self)
                    &&& e.kind == ChatErrorKind::Room
                    &&& e.message@ == "Room does not exist"@
                },
            },
    {
        let idx = match self.find_room(room_name) {
            Some(i) => i,
            None => {
                return Err(
                    ChatError::new(ChatErrorKind::Room, "Room does not exist".to_owned()),
                );
            },
        };
        let ghost prev = self.spec_rooms();
        let ghost pos = idx as int;
        proof {
            assert(prev[pos].wf());
        }
        let mut room = self.rooms.remove(idx);
        let removed = room.remove_user(username);
        if removed {
            let text = username.clone().concat(" has left the room");
            let notice = Message::new(room_name.clone(), "System".to_owned(), text);
            fan_out(clients, &room, &notice);
            room.add_message(notice);
            proof {
                assert(Self::is_leave_notice(notice, username@, prev[pos].name@));
                assert(Self::spec_room_left(prev[pos], room, username@));
            }
        }
        self.rooms.insert(idx, room);
        proof {
            assert(self.spec_rooms() =~= prev.update(pos, room));
            lemma_names_unique_pinpoint(prev, pos, prev[pos].name@);
            assert forall|i: int| 0 <= i < self.spec_rooms().len()
                implies (#[trigger] self.spec_rooms()[i]).wf() by {
                if i != pos {
                    assert(old(self).spec_rooms()[i] == prev[i]);
                }
            }
            assert forall|i: int|
                0 <= i < self.spec_rooms().len() && self.spec_rooms()[i].name@ == room_name@
                    implies !self.spec_rooms()[i].spec_has_user(username@) by {
                assert(i == pos);
            }
        }
        Ok(())
    }

    /// Routes one message to the room it names. A missing room fails with
    /// `Room`/"Room does not exist" and changes nothing. Otherwise the
    /// message is delivered, best effort, to every current member's queue
    /// through the client registry — a member without a live entry is
    /// skipped, and one failed delivery never aborts the rest — and is
    /// recorded in that room's history, evicting the oldest entry first
    /// once the bound is reached. Membership is untouched.
    pub fn broadcast_message(&mut self, clients: &ClientManager, message: Message) -> (r: Result<
        (),
        ChatError,
    >)
        requires
            old(self).wf(),
        ensures
            final(self).wf(),
            final(self).spec_rooms().len() == old(self).spec_rooms().len(),
            match r {
                Ok(()) => {
                    &&& old(self).spec_has_room(message.room@)
                    &&& Self::spec_broadcast_transition(*old(self), *final(self), message)
                },
                Err(e) => {
                    &&& !old(self).spec_has_room(message.room@)
                    &&& *final(self) == *old(self)
                    &&& e.kind == ChatErrorKind::Room
                    &&& e.message@ == "Room does not exist"@
                },
            },
    {
        let idx = match self.find_room(&message.room) {
            Some(i) => i,
            None => {
                return Err(
                    ChatError::new(ChatErrorKind::Room, "Room does not exist".to_owned()),
                );
            },
        };
        let ghost prev = self.spec_rooms();
        let ghost pos = idx as int;
        proof {
            assert(prev[pos].wf());
        }
        let mut room = self.rooms.remove(idx);
        fan_out(clients, &room, &message);
        room.add_message(message);
        self.rooms.insert(idx, room);
        proof {
            assert(self.spec_rooms() =~= prev.update(pos, room));
            lemma_names_unique_pinpoint(prev, pos, prev[pos].name@);
            assert forall|i: int| 0 <= i < self.spec_rooms().len()
                implies (#[trigger] self.spec_rooms()[i]).wf() by {
                if i != pos {
                    assert(old(self).spec_rooms()[i] == prev[i]);
                }
            }
        }
        Ok(())
    }

    /// The names of all rooms, in creation order.
    pub fn list_rooms(&self) -> (names: Vec<String>)
        ensures
            names@.len() == self.spec_rooms().len(),
            forall|i: int|
                0 <= i < names@.len() ==> (#[trigger] names@[i])@ == self.spec_rooms()[i].name@,
    {
        let n = self.rooms.len();
        let mut names: Vec<String> = Vec::new();
        let mut i: usize = 0;
        while i < n
            invariant
                n == self.spec_rooms().len(),
                i <= n,
                names@.len() == i,
                forall|j: int|
                    0 <= j < i ==> (#[trigger] names@[j])@ == self.spec_rooms()[j].name@,
            decreases n - i,
        {
            names.push(self.rooms[i].name.clone());
            i = i + 1;
        }
        names
    }

    /// The current member set of the room named `room_name`, in join
    /// order. A missing room fails with `Room`/"Room does not exist".
    pub fn list_users(&self, room_name: &String) -> (r: Result<Vec<String>, ChatError>)
        ensures
            match r {
                Ok(users) => {
                    &&& self.spec_has_room(room_name@)
                    &&& exists|i: int|
                        0 <= i < self.spec_rooms().len()
                            && (#[trigger] self.spec_rooms()[i]).name@ == room_name@
                            && users@.len() == self.spec_rooms()[i].users@.len()
                            && (forall|j: int|
                            0 <= j < users@.len() ==> (#[trigger] users@[j])@ == self.spec_rooms()[
                            i].users@[j]@)
                },
                Err(e) => {
                    &&& !self.spec_has_room(room_name@)
                    &&& e.kind == ChatErrorKind::Room
                    &&& e.message@ == "Room does not exist"@
                },
            },
    {
        let idx = match self.find_room(room_name) {
            Some(i) => i,
            None => {
                return Err(
                    ChatError::new(ChatErrorKind::Room, "Room does not exist".to_owned()),
                );
            },
        };
        let n = self.rooms[idx].users.len();
        let mut users: Vec<String> = Vec::new();
        let mut j: usize = 0;
        while j < n
            invariant
                idx < self.spec_rooms().len(),
                n == self.spec_rooms()[idx as int].users@.len(),
                j <= n,
                users@.len() == j,
                forall|k: int|
                    0 <= k < j ==> (#[trigger] users@[k])@ == self.spec_rooms()[idx as int].users@[
                    k]@,
            decreases n - j,
        {
            users.push(self.rooms[idx].users[j].clone());
            j = j + 1;
        }
        Ok(users)
    }

    /// Removes `username` from every room it is a member of, announcing
    /// each effective departure, exactly as `leave_room` would. This is the
    /// session-cleanup step: a disconnect counts as an implicit leave of
    /// all rooms.
    pub fn leave_all(&mut self, username: &String, clients: &ClientManager)
        requires
            old(self).wf(),
        ensures
            final(self).wf(),
            Self::spec_leave_all_transition(*old(self), *final(self), username@),
    {
        let n = self.rooms.len();
        let mut i: usize = 0;
        while i < n
            invariant
                old(self).wf(),
                n == old(self).spec_rooms().len(),
                i <= n,
                self.spec_rooms().len() == n,
                names_unique(self.spec_rooms()),
                forall|j: int|
                    0 <= j < n ==> (#[trigger] self.spec_rooms()[j]).wf(),
                forall|j: int|
                    i <= j < n ==> #[trigger] self.spec_rooms()[j] == old(self).spec_rooms()[j],
                forall|j: int|
                    0 <= j < i ==> {
                        let or = #[trigger] old(self).spec_rooms()[j];
                        let nr = self.spec_rooms()[j];
                        if or.spec_has_user(username@) {
                            Self::spec_room_left(or, nr, username@)
                        } else {
                            nr == or
                        }
                    },
                forall|j: int|
                    0 <= j < i ==> !(#[trigger] self.spec_rooms()[j]).spec_has_user(username@),
            decreases n - i,
        {
            let ghost prev = self.spec_rooms();
            let ghost pos = i as int;
            let mut room = self.rooms.remove(i);
            let removed = room.remove_user(username);
            if removed {
                let text = username.clone().concat(" has left the room");
                let notice = Message::new(room.name.clone(), "System".to_owned(), text);
                fan_out(clients, &room, &notice);
                room.add_message(notice);
                proof {
                    assert(Self::is_leave_notice(notice, username@, prev[pos].name@));
                    assert(Self::spec_room_left(prev[pos], room, username@));
                }
            }
            self.rooms.insert(i, room);
            proof {
                assert(self.spec_rooms() =~= prev.update(pos, room));
                assert(room.name == prev[pos].name);
                assert forall|i2: int, j2: int|
                    0 <= i2 < j2 < self.spec_rooms().len()
                        implies self.spec_rooms()[i2].name@ != self.spec_rooms()[j2].name@ by {
                    assert(prev[i2].name@ != prev[j2].name@);
                    assert(self.spec_rooms()[i2].name == prev[i2].name);
                    assert(self.spec_rooms()[j2].name == prev[j2].name);
                }
            }
            i = i + 1;
        }
        proof {
            assert forall|room: Seq<char>|
                !final(self).spec_is_member(username@, room) by {
                assert forall|j: int|
                    0 <= j < self.spec_rooms().len()
                        implies !(#[trigger] self.spec_rooms()[j]).spec_has_user(username@) by {}
            }
        }
    }
}

/// Joining is idempotent: once a join of `user` into `room` has taken
/// effect, repeating the same join changes nothing at all — in particular
/// the membership gains no duplicate and no second notice is recorded.
pub proof fn lemma_join_idempotent(
    pre: RoomManager,
    mid: RoomManager,
    user: Seq<char>,
    room: Seq<char>,
)
    requires
        mid.wf(),
        RoomManager::spec_join_transition(pre, mid, user, room),
    ensures
        RoomManager::spec_join_transition(mid, mid, user, room),
{
    let w = choose|w: int|
        0 <= w < mid.spec_rooms().len() && mid.spec_rooms()[w].name@ == room
            && mid.spec_rooms()[w].spec_has_user(user);
    assert forall|i: int| 0 <= i < mid.spec_rooms().len() implies {
        let or = #[trigger] mid.spec_rooms()[i];
        let nr = mid.spec_rooms()[i];
        if or.name@ == room {
            if or.spec_has_user(user) {
                nr == or
            } else {
                RoomManager::spec_room_joined(or, nr, user)
            }
        } else {
            nr == or
        }
    } by {
        if mid.spec_rooms()[i].name@ == room {
            if i != w {
                assert(names_unique(mid.spec_rooms()));
                if i < w {
                    assert(mid.spec_rooms()[i].name@ != mid.spec_rooms()[w].name@);
                } else {
                    assert(mid.spec_rooms()[w].name@ != mid.spec_rooms()[i].name@);
                }
            }
            assert(mid.spec_rooms()[i].spec_has_user(user));
        }
    }
}

/// Proof that with unique names, only the room at `idx` can carry `target`.
proof fn lemma_names_unique_pinpoint(s: Seq<Room>, idx: int, target: Seq<char>)
    requires
        names_unique(s),
        0 <= idx < s.len(),
        s[idx].name@ == target,
    ensures
        forall|i: int| 0 <= i < s.len() && i != idx ==> (#[trigger] s[i]).name@ != target,
{
    assert forall|i: int| 0 <= i < s.len() && i != idx implies (#[trigger] s[i]).name@
        != target by {
        if i < idx {
            assert(s[i].name@ != s[idx].name@);
        } else {
            assert(s[idx].name@ != s[i].name@);
        }
    }
}

/// Best-effort fan-out of one message to every member's outbound queue;
/// absent or unreachable recipients are skipped, failures isolated.
fn fan_out(clients: &ClientManager, room: &Room, message: &Message) {
    let n = room.users.len();
    let mut k: usize = 0;
    while k < n
        invariant
            n == room.users@.len(),
            k <= n,
        decreases n - k,
    {
        let _ = clients.send_to(&room.users[k], message.clone());
        k = k + 1;
    }
}

} // verus!
