//! The client registry: the authoritative mapping from a connected client's
//! display name to its live outbound delivery handle. At most one entry per
//! name; duplicate registration is rejected, never overwritten.

use vstd::prelude::*;
use tokio::sync::mpsc::Sender;
use crate::channel::try_send_message;
use crate::errors::{ChatError, ChatErrorKind};
use crate::message::Message;

verus! {

/// Display name -> outbound delivery handle, one entry per name. An entry
/// lives exactly as long as its connection: registered on authentication,
/// removed on disconnect or quit.
pub struct ClientManager {
    clients: Vec<(String, Sender<Message>)>,
}

impl ClientManager {
    /// The registered entries, as (name, handle) pairs.
    pub closed spec fn spec_entries(self) -> Seq<(String, Sender<Message>)> {
        self.clients@
    }

    /// Whether `name` currently has a live entry.
    pub open spec fn spec_has_client(self, name: Seq<char>) -> bool {
        exists|i: int|
            0 <= i < self.spec_entries().len() && self.spec_entries()[i].0@ == name
    }

    /// Structural invariant: at most one entry per display name.
    pub open spec fn wf(self) -> bool {
        forall|i: int, j: int|
            0 <= i < j < self.spec_entries().len()
                ==> self.spec_entries()[i].0@ != self.spec_entries()[j].0@
    }

    /// An empty registry: no name has an entry.
    pub fn new() -> (r: ClientManager)
        ensures
            r.wf(),
            forall|n: Seq<char>| !r.spec_has_client(n),
    {
        ClientManager { clients: Vec::new() }
    }

    /// Index of the entry for `username`, if one exists.
    fn find(&self, username: &String) -> (r: Option<usize>)
        ensures
            match r {
                Some(i) => i < self.spec_entries().len()
                    && self.spec_entries()[i as int].0@ == username@,
                None => !self.spec_has_client(username@),
            },
    {
        let n = self.clients.len();
        let mut i: usize = 0;
        while i < n
            invariant
                n == self.clients@.len(),
                i <= n,
                forall|j: int| 0 <= j < i ==> self.clients@[j].0@ != username@,
            decreases n - i,
        {
            if self.clients[i].0 == *username {
                return Some(i);
            }
            i = i + 1;
        }
        None
    }

    /// Registers `username` with its delivery handle. Fails if and only if
    /// the name is already present; a taken name is never overwritten. A
    /// name freed by `remove_client` can be registered again.
    pub fn add_client(&mut self, username: String, tx: Sender<Message>) -> (r: Result<
        (),
        ChatError,
    >)
        requires
            old(self).wf(),
        ensures
            final(self).wf(),
            match r {
                Ok(()) => {
                    &&& !old(self).spec_has_client(username@)
                    &&& final(self).spec_entries() == old(self).spec_entries().push(
                        (username, tx),
                    )
                    &&& final(self).spec_has_client(username@)
                },
                Err(e) => {
                    &&& old(self).spec_has_client(username@)
                    &&& *final(self) == *old(self)
                    &&& e.kind == ChatErrorKind::Authentication
                    &&& e.message@ == "Username already taken"@
                },
            },
    {
        if self.find(&username).is_some() {
            return Err(ChatError::new(
                ChatErrorKind::Authentication,
                "Username already taken".to_owned(),
            ));
        }
        let ghost prev = old(self).spec_entries();
        let ghost uname = username@;
        self.clients.push((username, tx));
        proof {
            assert(self.spec_entries() =~= prev.push(self.spec_entries().last()));
            assert(self.spec_entries().last().0@ == uname);
            assert forall|w: int| 0 <= w < prev.len() implies prev[w].0@ != uname by {
                assert(old(self).spec_entries()[w] == prev[w]);
            }
            assert forall|i: int, j: int|
                0 <= i < j < self.spec_entries().len()
                    implies self.spec_entries()[i].0@ != self.spec_entries()[j].0@ by {
                assert(self.spec_entries()[i] == prev[i]);
                if j < prev.len() {
                    assert(self.spec_entries()[j] == prev[j]);
                    assert(old(self).spec_entries()[i] == prev[i]);
                    assert(old(self).spec_entries()[j] == prev[j]);
                } else {
                    assert(self.spec_entries()[j].0@ == uname);
                }
            }
        }
        Ok(())
    }

    /// Removes `username`'s entry. Fails if and only if the name has no
    /// entry; either way the name is absent afterwards, so a session's
    /// cleanup may call this twice without harm.
    pub fn remove_client(&mut self, username: &String) -> (r: Result<(), ChatError>)
        requires
            old(self).wf(),
        ensures
            final(self).wf(),
            !final(self).spec_has_client(username@),
            forall|n: Seq<char>|
                n != username@ ==> final(self).spec_has_client(n) == old(
                    self,
                ).spec_has_client(n),
            match r {
                Ok(()) => old(self).spec_has_client(username@),
                Err(e) => {
                    &&& !old(self).spec_has_client(username@)
                    &&& *final(self) == *old(self)
                    &&& e.kind == ChatErrorKind::Authentication
                    &&& e.message@ == "Client not found"@
                },
            },
    {
        match self.find(username) {
            Some(i) => {
                let ghost prev = old(self).spec_entries();
                let ghost pos = i as int;
                self.clients.remove(i);
                proof {
                    assert(self.spec_entries() == prev.remove(pos));
                    assert forall|j: int| 0 <= j < self.spec_entries().len()
                        implies self.spec_entries()[j].0@ != username@ by {
                        if j < pos {
                            assert(self.spec_entries()[j] == prev[j]);
                            assert(old(self).spec_entries()[j] == prev[j]);
                            assert(old(self).spec_entries()[pos] == prev[pos]);
                        } else {
                            assert(self.spec_entries()[j] == prev[j + 1]);
                            assert(old(self).spec_entries()[j + 1] == prev[j + 1]);
                            assert(old(self).spec_entries()[pos] == prev[pos]);
                        }
                    }
                    assert forall|i2: int, j2: int|
                        0 <= i2 < j2 < self.spec_entries().len()
                            implies self.spec_entries()[i2].0@ != self.spec_entries()[j2].0@ by {
                        let oi: int = if i2 < pos { i2 } else { i2 + 1 };
                        let oj: int = if j2 < pos { j2 } else { j2 + 1 };
                        assert(self.spec_entries()[i2] == prev[oi]);
                        assert(self.spec_entries()[j2] == prev[oj]);
                        assert(old(self).spec_entries()[oi] == prev[oi]);
                        assert(old(self).spec_entries()[oj] == prev[oj]);
                    }
                    assert forall|n: Seq<char>|
                        n != username@ && old(self).spec_has_client(n)
                            implies self.spec_has_client(n) by {
                        let w = choose|w: int|
                            0 <= w < prev.len() && #[trigger] prev[w].0@ == n;
                        assert(old(self).spec_entries()[w] == prev[w]);
                        if w < pos {
                            assert(self.spec_entries()[w] == prev[w]);
                        } else {
                            assert(w != pos);
                            assert(self.spec_entries()[w - 1] == prev[w]);
                        }
                    }
                    assert forall|n: Seq<char>|
                        n != username@ && self.spec_has_client(n)
                            implies old(self).spec_has_client(n) by {
                        let w = choose|w: int|
                            0 <= w < self.spec_entries().len()
                                && #[trigger] self.spec_entries()[w].0@ == n;
                        if w < pos {
                            assert(old(self).spec_entries()[w] == prev[w]);
                            assert(self.spec_entries()[w] == prev[w]);
                        } else {
                            assert(old(self).spec_entries()[w + 1] == prev[w + 1]);
                            assert(self.spec_entries()[w] == prev[w + 1]);
                        }
                    }
                }
                Ok(())
            },
            None => Err(ChatError::new(
                ChatErrorKind::Authentication,
                "Client not found".to_owned(),
            )),
        }
    }

    /// Best-effort delivery of one message to `username`'s queue. Nothing
    /// is delivered to a name without an entry; for a present entry the
    /// outcome depends on the receiving side (queue full, receiver gone),
    /// so only failure-for-absence is pinned down.
    pub fn send_to(&self, username: &String, message: Message) -> (delivered: bool)
        ensures
            !self.spec_has_client(username@) ==> !delivered,
    {
        match self.find(username) {
            Some(i) => try_send_message(&self.clients[i].1, message),
            None => false,
        }
    }
}

} // verus!
