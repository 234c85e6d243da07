//! Offering a message to a subscriber's channel, with a receipt of the offer.

use vstd::prelude::*;
use crate::kernel::bus::Message;

verus! {

/// A receipt that a message was offered to a channel: which channel and
/// which message. Only [`try_send`] makes one.
pub struct Handoff {
    sender: Ghost<tokio::sync::mpsc::Sender<Message>>,
    message: Ghost<Message>,
}

impl Handoff {
    /// The channel the message was offered to.
    pub closed spec fn sender(&self) -> tokio::sync::mpsc::Sender<Message> {
        self.sender@
    }

    /// The message offered.
    pub closed spec fn message(&self) -> Message {
        self.message@
    }
}

/// Calls `Sender::try_send`, which queues the message unless the channel is
/// full or closed; whether it was queued is not reported. The receipt names
/// the channel and the message that the call was given.
#[verifier::external_body]
pub(crate) fn try_send(sender: &tokio::sync::mpsc::Sender<Message>, message: Message) -> (r: Handoff)
    ensures
        r.sender() == *sender,
        r.message() == message,
{
    let receipt = Handoff { sender: Ghost(*sender), message: Ghost(message) };
    let _ = sender.try_send(message);
    receipt
}

} // verus!
