//! The ends of the channels through which commands pass between threads.
//!
//! The calls into `std::sync::mpsc` are trusted and state nothing, since what
//! arrives or leaves depends on the other threads. Each end that the library
//! keeps carries a record of the values it handed over or took.

use vstd::prelude::*;
use std::sync::mpsc::{Receiver, Sender, TryRecvError};

verus! {

/// The sending end of a channel.
#[verifier::external_type_specification]
#[verifier::external_body]
#[verifier::reject_recursive_types(T)]
pub struct ExSender<T>(Sender<T>);

/// The receiving end of a channel.
#[verifier::external_type_specification]
#[verifier::external_body]
#[verifier::reject_recursive_types(T)]
pub struct ExReceiver<T>(Receiver<T>);

/// Why nothing was taken from a channel.
#[derive(Debug, Clone, Copy, PartialEq, Eq, Structural)]
pub enum ChannelError {
    /// Nothing is waiting in the channel.
    Empty,
    /// Every sending end has hung up and nothing is waiting.
    Disconnected,
}

/// Wraps `Sender::send`: hands `value` to the receiving end, and reports
/// whether it could (it cannot once the receiving end has hung up). That
/// depends on another thread, so nothing is stated of it.
#[verifier::external_body]
pub(crate) fn channel_send<T>(tx: &Sender<T>, value: T) -> (sent: bool) {
    tx.send(value).is_ok()
}

/// Wraps `Receiver::try_recv`: takes the next value waiting in the channel
/// without blocking. What is waiting depends on other threads, so nothing
/// is stated of it.
#[verifier::external_body]
pub(crate) fn channel_try_recv<T>(rx: &Receiver<T>) -> (r: Result<T, ChannelError>) {
    match rx.try_recv() {
        Ok(value) => Ok(value),
        Err(TryRecvError::Empty) => Err(ChannelError::Empty),
        Err(TryRecvError::Disconnected) => Err(ChannelError::Disconnected),
    }
}

/// The sending end of a channel, with a record of every value handed to it
/// and of whether each was accepted.
#[verifier::reject_recursive_types(T)]
pub struct CommandSender<T> {
    tx: Sender<T>,
    sent: Ghost<Seq<T>>,
    accepted: Ghost<Seq<bool>>,
}

impl<T> CommandSender<T> {
    /// The values handed to this end so far, oldest first.
    pub closed spec fn sent(&self) -> Seq<T> {
        self.sent@
    }

    /// For each value handed to this end, whether the receiving end was
    /// still there to take it.
    pub closed spec fn accepted(&self) -> Seq<bool> {
        self.accepted@
    }

    /// The channel end that the values go to.
    pub closed spec fn channel(&self) -> Sender<T> {
        self.tx
    }

    /// The end `tx`, with nothing handed to it yet.
    pub fn new(tx: Sender<T>) -> (s: CommandSender<T>)
        ensures
            s.channel() == tx,
            s.sent() == Seq::<T>::empty(),
            s.accepted() == Seq::<bool>::empty(),
    {
        CommandSender { tx, sent: Ghost(Seq::empty()), accepted: Ghost(Seq::empty()) }
    }

    /// Hands `value` to the channel; reports whether the receiving end was
    /// still there to take it. The record grows by `value` and by the
    /// report. It is kept beside the call: what the channel holds, and that
    /// the call was made, depends on the other threads and `std::sync::mpsc`
    /// and is not stated.
    pub fn send(&mut self, value: T) -> (accepted: bool)
        ensures
            final(self).channel() == old(self).channel(),
            final(self).sent() == old(self).sent().push(value),
            final(self).accepted() == old(self).accepted().push(accepted),
    {
        let ghost v = value;
        let accepted = channel_send(&self.tx, value);
        self.sent = Ghost(self.sent@.push(v));
        self.accepted = Ghost(self.accepted@.push(accepted));
        accepted
    }
}

/// The receiving end of a channel, with a record of every value taken from
/// it.
#[verifier::reject_recursive_types(T)]
pub struct CommandReceiver<T> {
    rx: Receiver<T>,
    received: Ghost<Seq<T>>,
}

impl<T> CommandReceiver<T> {
    /// The values taken from this end so far, oldest first.
    pub closed spec fn received(&self) -> Seq<T> {
        self.received@
    }

    /// The channel end that the values come from.
    pub closed spec fn channel(&self) -> Receiver<T> {
        self.rx
    }

    /// The end `rx`, with nothing taken from it yet.
    pub fn new(rx: Receiver<T>) -> (r: CommandReceiver<T>)
        ensures
            r.channel() == rx,
            r.received() == Seq::<T>::empty(),
    {
        CommandReceiver { rx, received: Ghost(Seq::empty()) }
    }

    /// Takes the next value waiting in the channel, if there is one.
    pub fn try_recv(&mut self) -> (r: Result<T, ChannelError>)
        ensures
            final(self).channel() == old(self).channel(),
            match r {
                Ok(v) => final(self).received() == old(self).received().push(v),
                Err(_) => final(self).received() == old(self).received(),
            },
    {
        let r = channel_try_recv(&self.rx);
        match r {
            Ok(v) => {
                let ghost g = v;
                self.received = Ghost(self.received@.push(g));
                Ok(v)
            },
            Err(e) => Err(e),
        }
    }
}

} // verus!
