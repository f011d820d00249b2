//! The outbound delivery handle: the producing end of a recipient's bounded
//! queue. The registry holds one per connected client; the owning session
//! holds the consuming end.

use vstd::prelude::*;
use crate::message::Message;

verus! {

/// tokio's bounded mpsc sender, declared so that a delivery handle can be
/// stored in the client registry and passed around. The value is opaque
/// here: it is only ever carried or handed to `try_send_message`.
#[verifier::external_type_specification]
#[verifier::external_body]
#[verifier::reject_recursive_types(T)]
pub struct ExSender<T>(tokio::sync::mpsc::Sender<T>);

/// Relies on tokio's mpsc::Sender::try_send: queues the message when the
/// channel has spare capacity and the receiving end is still alive, and
/// fails (full or closed) otherwise, without blocking. Whether it succeeds
/// depends on the receiving side, so nothing is promised of the result.
#[verifier::external_body]
pub(crate) fn try_send_message(tx: &tokio::sync::mpsc::Sender<Message>, m: Message) -> bool {
    tx.try_send(m).is_ok()
}

} // verus!
