//! Declarations of the outside types that the state machine carries, and
//! the small trusted wrappers through which it calls into outside crates.

use vstd::prelude::*;

verus! {

/// A subscription to a tokio broadcast channel.
#[verifier::external_type_specification]
#[verifier::external_body]
#[verifier::reject_recursive_types(T)]
pub struct ExBroadcastReceiver<T>(tokio::sync::broadcast::Receiver<T>);

/// Calls `rand::random_range(low..high)`. The value is drawn at random, so
/// all that is claimed is that it lies in `low..high`; rand panics on an
/// empty range, which `requires` rules out.
#[verifier::external_body]
pub(crate) fn random_in_range(low: i64, high: i64) -> (r: i64)
    requires
        low < high,
    ensures
        low <= r < high,
{
    rand::random_range(low..high)
}

/// Calls `cuid2::CuidConstructor::new().with_length(length).create_id()`.
/// The id is random, so only its shape is claimed: cuid2 puts a lowercase
/// letter in front of the base-36 text of a hash (lowercase digits and
/// letters, at least one character), truncated to `length - 1` characters.
/// cuid2 panics on a length below 2, which `requires` rules out.
#[verifier::external_body]
pub(crate) fn cuid_with_length(length: u16) -> (id: String)
    requires
        length >= 2,
    ensures
        crate::state::cuid_shaped(id@, length as nat),
{
    cuid2::CuidConstructor::new().with_length(length).create_id()
}

/// The broadcast channel of a lobby: the sending half of a tokio broadcast
/// channel, held privately so that every send and subscription goes through
/// the wrappers below, which keep its names up to date. It cannot be cloned:
/// a second holder could subscribe or send behind the names of the first.
#[verifier::external_body]
#[derive(Debug)]
pub struct LobbyChannel {
    sender: tokio::sync::broadcast::Sender<crate::types::WSMessagePass>,
}

/// The messages that the channel accepted, oldest first.
pub uninterp spec fn accepted_messages(channel: LobbyChannel) -> Seq<crate::types::PassView>;

/// The capacity the channel was opened with.
pub uninterp spec fn channel_capacity(channel: LobbyChannel) -> nat;

/// Whether a receiver was ever subscribed to the channel.
pub uninterp spec fn ever_subscribed(channel: LobbyChannel) -> bool;

impl LobbyChannel {
    /// Calls `tokio::sync::broadcast::channel(capacity)` and keeps the
    /// sending half; the first receiver is dropped at once (its `Drop`
    /// lowers the receiver count to 0), so the channel starts with no
    /// subscriber and no accepted message. tokio panics on a capacity of 0
    /// or above `usize::MAX / 2`, which `requires` rules out.
    #[verifier::external_body]
    pub(crate) fn open(capacity: usize) -> (channel: LobbyChannel)
        requires
            0 < capacity <= usize::MAX / 2,
        ensures
            accepted_messages(channel) == Seq::<crate::types::PassView>::empty(),
            channel_capacity(channel) == capacity,
            !ever_subscribed(channel),
    {
        LobbyChannel { sender: tokio::sync::broadcast::channel(capacity).0 }
    }

    /// Calls `Sender::send(message)`. tokio refuses the value, handing it
    /// back in a `SendError`, whose payload is returned here, when no
    /// receiver is subscribed (the receiver count is 0, as it is for a
    /// channel that never had a subscription); otherwise it accepts it and
    /// returns the number of subscribed receivers, at least 1. Whether receivers taken earlier are still
    /// alive depends on the tasks that hold them, so acceptance is left
    /// open for a channel that had subscriptions.
    #[verifier::external_body]
    pub(crate) fn send(&mut self, message: crate::types::WSMessagePass) -> (r: Result<
        usize,
        crate::types::WSMessagePass,
    >)
        ensures
            r matches Ok(n) ==> n >= 1,
            r matches Err(refused) ==> refused == message,
            r is Ok ==> accepted_messages(*final(self)) == accepted_messages(*old(self)).push(
                message@,
            ),
            r is Err ==> accepted_messages(*final(self)) == accepted_messages(*old(self)),
            !ever_subscribed(*old(self)) ==> r is Err,
            channel_capacity(*final(self)) == channel_capacity(*old(self)),
            ever_subscribed(*final(self)) == ever_subscribed(*old(self)),
    {
        match self.sender.send(message) {
            Ok(n) => Ok(n),
            Err(e) => Err(e.0),
        }
    }

    /// Calls `Sender::subscribe`, which adds a receiver to the channel. The
    /// receiver itself is opaque.
    #[verifier::external_body]
    pub(crate) fn subscribe(&mut self) -> (receiver: tokio::sync::broadcast::Receiver<
        crate::types::WSMessagePass,
    >)
        ensures
            ever_subscribed(*final(self)),
            accepted_messages(*final(self)) == accepted_messages(*old(self)),
            channel_capacity(*final(self)) == channel_capacity(*old(self)),
    {
        self.sender.subscribe()
    }
}

/// Calls `i64::to_string`, whose `Display` writes the number in decimal
/// with a leading `-` when it is negative.
#[verifier::external_body]
pub(crate) fn int_text(n: i64) -> (text: String)
    ensures
        text@ == crate::error::decimal(n as int),
{
    n.to_string()
}

} // verus!
