use vstd::prelude::*;
use crate::identity::ShortIdStr;

verus! {

/// A brokering event as it travels between sessions through a mailbox.
#[derive(Debug, Clone, Copy, PartialEq, Eq, Structural)]
pub enum ChannelMsg {
    /// The sender asks to connect to the receiver.
    ConnectToUser,
    /// The sender is occupied by another exchange.
    UserBusy,
    /// The sender declines the connection the receiver asked for.
    ConnectToUserReject,
    /// The sender accepts the connection the receiver asked for.
    ConnectToUserAccept,
}

/// A brokering event with the username of the session that sent it.
#[derive(Debug)]
pub struct ChannelMsgWithSender {
    pub from: ShortIdStr,
    pub message: ChannelMsg,
}

/// Why a message could not be placed in a mailbox.
#[derive(Debug, Clone, Copy, PartialEq, Eq, Structural)]
pub enum TellError {
    /// The single slot is occupied: the user is mid-exchange.
    Full,
    /// The mailbox's session is gone.
    Closed,
}

// A mailbox is a bounded channel of capacity exactly one. The capacity is
// the protocol's serialization mechanism: a user has at most one
// unacknowledged brokering exchange in flight, and a second knock finds the
// slot occupied.

#[verifier::external_type_specification]
#[verifier::external_body]
#[verifier::reject_recursive_types(T)]
pub struct ExSender<T>(tokio::sync::mpsc::Sender<T>);

#[verifier::external_type_specification]
#[verifier::external_body]
#[verifier::reject_recursive_types(T)]
pub struct ExReceiver<T>(tokio::sync::mpsc::Receiver<T>);

/// The sending end of a session's mailbox, as the registry hands it to any
/// session that wants to signal that user.
pub struct UserChannel(tokio::sync::mpsc::Sender<ChannelMsgWithSender>);

/// Relies on `tokio::sync::mpsc::channel`: a fresh bounded channel whose two
/// ends are returned; the capacity of one bounds a user to one outstanding
/// brokering exchange.
#[verifier::external_body]
pub fn new_mailbox() -> (UserChannel, tokio::sync::mpsc::Receiver<ChannelMsgWithSender>) {
    let (tx, rx) = tokio::sync::mpsc::channel(1);
    (UserChannel(tx), rx)
}

impl UserChannel {
    /// Wraps an existing sending end of a session's mailbox channel.
    pub fn from_sender(sender: tokio::sync::mpsc::Sender<ChannelMsgWithSender>) -> UserChannel {
        UserChannel(sender)
    }

    /// The raw sending end, for the blocking send that only an asynchronous
    /// caller can await.
    pub fn sender(&self) -> &tokio::sync::mpsc::Sender<ChannelMsgWithSender> {
        &self.0
    }

    /// A second handle to the same mailbox.
    pub fn duplicate(&self) -> UserChannel {
        UserChannel(clone_sender(&self.0))
    }

    /// Best-effort, non-blocking delivery of a brokering event: refused at
    /// once when the single slot is occupied — which legitimately means "the
    /// user is busy" — or when the session is gone. Whether it succeeds
    /// depends on what the receiving session is doing concurrently, so
    /// nothing more can be promised of the outcome.
    pub fn try_tell(&self, from: &ShortIdStr, message: ChannelMsg) -> (r: Result<(), TellError>) {
        try_send_msg(&self.0, ChannelMsgWithSender { from: from.clone(), message })
    }
}

/// Relies on `tokio::sync::mpsc::Sender::try_send`: non-blocking; the
/// message is enqueued on `Ok`; `Full` reports a channel at capacity,
/// `Closed` a dropped receiver.
#[verifier::external_body]
fn try_send_msg(
    sender: &tokio::sync::mpsc::Sender<ChannelMsgWithSender>,
    msg: ChannelMsgWithSender,
) -> Result<(), TellError> {
    match sender.try_send(msg) {
        Ok(()) => Ok(()),
        Err(tokio::sync::mpsc::error::TrySendError::Full(_)) => Err(TellError::Full),
        Err(tokio::sync::mpsc::error::TrySendError::Closed(_)) => Err(TellError::Closed),
    }
}

/// Relies on `tokio::sync::mpsc::Sender::clone`: another sending end of the
/// same channel.
#[verifier::external_body]
fn clone_sender(
    sender: &tokio::sync::mpsc::Sender<ChannelMsgWithSender>,
) -> tokio::sync::mpsc::Sender<ChannelMsgWithSender> {
    sender.clone()
}

} // verus!
