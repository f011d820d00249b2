//! The room entity: a named broadcast domain with a membership set and a
//! bounded, first-in-first-out replay history.

use vstd::prelude::*;
use std::collections::VecDeque;
use crate::message::Message;

verus! {

/// Upper bound on a room's replay history; once reached, the oldest entry
/// is evicted first.
pub const MAX_HISTORY: usize = 100;

/// A room: its immutable name, its members (display names, each held at
/// most once), and its bounded replay history.
#[derive(Debug, Clone)]
pub struct Room {
    pub name: String,
    pub users: Vec<String>,
    pub history: VecDeque<Message>,
}

impl Room {
    /// Membership holds a display name at most once.
    pub open spec fn users_unique(self) -> bool {
        forall|i: int, j: int|
            0 <= i < j < self.users@.len() ==> self.users@[i]@ != self.users@[j]@
    }

    /// Structural invariant: unique membership and bounded history.
    pub open spec fn wf(self) -> bool {
        &&& self.users_unique()
        &&& self.history@.len() <= MAX_HISTORY
    }

    /// Whether `name` is currently a member.
    pub open spec fn spec_has_user(self, name: Seq<char>) -> bool {
        exists|i: int| 0 <= i < self.users@.len() && self.users@[i]@ == name
    }

    /// The history after one message is recorded: append, evicting the
    /// oldest entry when the bound is already reached.
    pub open spec fn spec_record(h: Seq<Message>, m: Message) -> Seq<Message> {
        if h.len() >= MAX_HISTORY {
            h.skip(1).push(m)
        } else {
            h.push(m)
        }
    }

    /// The history bound is invariant under any sequence of recordings:
    /// a bounded history stays bounded, recording appends at the back,
    /// and when the bound is already reached it is exactly the oldest
    /// entry that is evicted.
    pub proof fn lemma_record_bounded_fifo(h: Seq<Message>, m: Message)
        requires
            h.len() <= MAX_HISTORY,
        ensures
            Self::spec_record(h, m).len() <= MAX_HISTORY,
            Self::spec_record(h, m).last() == m,
            h.len() < MAX_HISTORY ==> Self::spec_record(h, m) == h.push(m),
            h.len() == MAX_HISTORY ==> Self::spec_record(h, m) == h.skip(1).push(m),
    {
    }

    /// An empty room under the given name.
    pub fn new(name: String) -> (r: Room)
        ensures
            r.name@ == name@,
            r.users@ == Seq::<String>::empty(),
            r.history@ == Seq::<Message>::empty(),
            r.wf(),
    {
        Room { name, users: Vec::new(), history: VecDeque::with_capacity(MAX_HISTORY) }
    }

    /// Whether `username` is currently a member.
    pub fn contains_user(&self, username: &String) -> (present: bool)
        ensures
            present == self.spec_has_user(username@),
    {
        let n = self.users.len();
        let mut i: usize = 0;
        while i < n
            invariant
                n == self.users@.len(),
                i <= n,
                forall|j: int| 0 <= j < i ==> self.users@[j]@ != username@,
            decreases n - i,
        {
            if self.users[i] == *username {
                return true;
            }
            i = i + 1;
        }
        false
    }

    /// Records a message in the history, evicting the oldest entry first
    /// once the bound is reached; membership and name are untouched.
    pub fn add_message(&mut self, message: Message)
        requires
            old(self).wf(),
        ensures
            final(self).wf(),
            final(self).name == old(self).name,
            final(self).users == old(self).users,
            final(self).history@ == Self::spec_record(old(self).history@, message),
            final(self).history@.len() <= MAX_HISTORY,
    {
        if self.history.len() >= MAX_HISTORY {
            self.history.pop_front();
            proof {
                assert(self.history@ =~= old(self).history@.skip(1));
            }
        }
        self.history.push_back(message);
    }

    /// Adds `username` to the membership unless already present; reports
    /// whether the membership actually changed.
    pub fn add_user(&mut self, username: String) -> (added: bool)
        requires
            old(self).wf(),
        ensures
            final(self).wf(),
            added == !old(self).spec_has_user(username@),
            final(self).name == old(self).name,
            final(self).history == old(self).history,
            added ==> final(self).users@ == old(self).users@.push(username),
            !added ==> *final(self) == *old(self),
            final(self).spec_has_user(username@),
    {
        if !self.contains_user(&username) {
            let ghost prev = self.users@;
            self.users.push(username);
            proof {
                assert(self.users@[prev.len() as int]@ == username@);
                assert forall|i: int, j: int|
                    0 <= i < j < self.users@.len() implies self.users@[i]@ != self.users@[j]@ by {
                    if j < prev.len() {
                    } else {
                        assert(self.users@[i] == prev[i]);
                    }
                }
            }
            true
        } else {
            false
        }
    }

    /// Removes `username` from the membership if present; reports whether
    /// the membership actually changed.
    pub fn remove_user(&mut self, username: &String) -> (removed: bool)
        requires
            old(self).wf(),
        ensures
            final(self).wf(),
            removed == old(self).spec_has_user(username@),
            final(self).name == old(self).name,
            final(self).history == old(self).history,
            !removed ==> *final(self) == *old(self),
            removed ==> exists|i: int|
                0 <= i < old(self).users@.len() && old(self).users@[i]@ == username@
                    && final(self).users@ == old(self).users@.remove(i),
            !final(self).spec_has_user(username@),
    {
        let n = self.users.len();
        let mut i: usize = 0;
        while i < n
            invariant
                n == self.users@.len(),
                i <= n,
                forall|j: int| 0 <= j < i ==> self.users@[j]@ != username@,
                old(self).wf(),
                *self == *old(self),
            decreases n - i,
        {
            if self.users[i] == *username {
                let ghost prev = self.users@;
                let ghost pos = i as int;
                self.users.remove(i);
                proof {
                    assert(self.users@ == prev.remove(pos));
                    assert forall|j: int| 0 <= j < self.users@.len()
                        implies self.users@[j]@ != username@ by {
                        if j < pos {
                            assert(self.users@[j] == prev[j]);
                        } else {
                            assert(self.users@[j] == prev[j + 1]);
                        }
                    }
                }
                return true;
            }
            i = i + 1;
        }
        false
    }
}

} // verus!
