//! A one-shot channel: a synchronization cell carrying a single value from a
//! sender to a receiver.
//!
//! The channel state lives in [`OneshotChannel`]; the two halves of the pair
//! are consuming capability tokens, so that each half can be used at most
//! once. Dropping a half before the transfer is modelled by the explicit
//! `close` operations, which close the channel for the peer.

use vstd::prelude::*;

use crate::errors::{ReceiveError, SendError};

verus! {

/// The shared cell of a one-shot channel: at most one value ever passes
/// through it, and each half can act on it at most once.
pub struct OneshotChannel<T> {
    value: Option<T>,
    sender_live: bool,
    receiver_live: bool,
}

/// The sending half of a one-shot pair. Consumed by [`OneshotChannelSender::send`]
/// or [`OneshotChannelSender::close`], so a value can be sent at most once.
pub struct OneshotChannelSender {
    token: bool,
}

/// The receiving half of a one-shot pair. Consumed by
/// [`OneshotChannelReceiver::recv`] or [`OneshotChannelReceiver::close`].
pub struct OneshotChannelReceiver {
    token: bool,
}

impl<T> OneshotChannel<T> {
    /// The value deposited by the sender and not yet taken by the receiver.
    pub closed spec fn spec_value(&self) -> Option<T> {
        self.value
    }

    /// Whether the sending half is still able to act on the channel.
    pub closed spec fn sender_live(&self) -> bool {
        self.sender_live
    }

    /// Whether the receiving half is still able to act on the channel.
    pub closed spec fn receiver_live(&self) -> bool {
        self.receiver_live
    }
}

/// Creates a one-shot channel: the shared cell plus the sender and receiver
/// halves. Both halves become invalid after their first use.
pub fn channel<T>() -> (r: (OneshotChannel<T>, OneshotChannelSender, OneshotChannelReceiver))
    ensures
        r.0.spec_value() is None,
        r.0.sender_live(),
        r.0.receiver_live(),
{
    (
        OneshotChannel { value: None, sender_live: true, receiver_live: true },
        OneshotChannelSender { token: true },
        OneshotChannelReceiver { token: true },
    )
}

impl OneshotChannelSender {
    /// Deposits `data` for the receiver and consumes the sender, so no second
    /// value can ever be sent. Fails with `Closed`, leaving the channel
    /// unchanged, exactly when the receiving half is gone.
    pub fn send<T>(self, chan: &mut OneshotChannel<T>, data: T) -> (r: Result<(), SendError>)
        requires
            old(chan).sender_live(),
            old(chan).spec_value() is None,
        ensures
            !final(chan).sender_live(),
            final(chan).receiver_live() == old(chan).receiver_live(),
            old(chan).receiver_live() ==> r is Ok && final(chan).spec_value() == Some(data),
            !old(chan).receiver_live() ==> r == Result::<(), SendError>::Err(SendError::Closed)
                && final(chan).spec_value() is None,
    {
        chan.sender_live = false;
        if chan.receiver_live {
            chan.value = Some(data);
            Ok(())
        } else {
            Err(SendError::Closed)
        }
    }

    /// Gives the sender up without sending, closing the channel for the
    /// receiver: a later `recv` fails with `Closed`.
    pub fn close<T>(self, chan: &mut OneshotChannel<T>)
        requires
            old(chan).sender_live(),
        ensures
            !final(chan).sender_live(),
            final(chan).receiver_live() == old(chan).receiver_live(),
            final(chan).spec_value() == old(chan).spec_value(),
    {
        chan.sender_live = false;
    }
}

impl OneshotChannelReceiver {
    /// Takes the value deposited by the sender, consuming the receiver: the
    /// value is received exactly once. Fails with `Closed` exactly when the
    /// sender was given up without sending. A caller must not ask for a value
    /// that nobody can deposit any more, so either the value is already there
    /// or the sending half is gone.
    pub fn recv<T>(self, chan: &mut OneshotChannel<T>) -> (r: Result<T, ReceiveError>)
        requires
            old(chan).receiver_live(),
            old(chan).spec_value() is Some || !old(chan).sender_live(),
        ensures
            !final(chan).receiver_live(),
            final(chan).sender_live() == old(chan).sender_live(),
            final(chan).spec_value() is None,
            match old(chan).spec_value() {
                Some(v) => r == Result::<T, ReceiveError>::Ok(v),
                None => r == Result::<T, ReceiveError>::Err(ReceiveError::Closed),
            },
    {
        chan.receiver_live = false;
        match chan.value.take() {
            Some(v) => Ok(v),
            None => Err(ReceiveError::Closed),
        }
    }

    /// Gives the receiver up, closing the channel for the sender: a later
    /// `send` fails with `Closed`. A value already deposited is discarded.
    pub fn close<T>(self, chan: &mut OneshotChannel<T>)
        requires
            old(chan).receiver_live(),
        ensures
            !final(chan).receiver_live(),
            final(chan).sender_live() == old(chan).sender_live(),
            final(chan).spec_value() is None,
    {
        chan.receiver_live = false;
        chan.value = None;
    }
}

} // verus!
