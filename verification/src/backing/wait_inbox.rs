//! The channel on which the backings' `wait_stream` calls report that they returned.
use vstd::prelude::*;
use crate::backing::combined::{Backing, IpcError};

verus! {

#[verifier::external_type_specification]
#[verifier::external_body]
#[verifier::reject_recursive_types(T)]
pub struct ExReceiver<T>(tokio::sync::mpsc::Receiver<T>);

/// What one non-blocking look into the wait-stream channel found.
pub enum WaitPoll {
    /// A backing's `wait_stream` returned, with this outcome.
    Returned(Result<Backing, IpcError>),
    /// Nothing is waiting, or every sender is gone.
    Nothing,
}

/// Calls tokio's `Receiver::len`: how many messages were waiting in the channel when
/// it was called. Other tasks send on the channel, so nothing is stated of it.
#[verifier::external_body]
fn wait_channel_len(rx: &tokio::sync::mpsc::Receiver<Result<Backing, IpcError>>) -> (n: usize) {
    rx.len()
}

/// Calls tokio's `Receiver::try_recv` once. Other tasks send on the channel, so
/// nothing is stated of what comes back.
#[verifier::external_body]
fn wait_channel_try_recv(rx: &mut tokio::sync::mpsc::Receiver<Result<Backing, IpcError>>) -> (poll: WaitPoll) {
    match rx.try_recv() {
        Ok(returned) => WaitPoll::Returned(returned),
        Err(_) => WaitPoll::Nothing,
    }
}

/// The receiving end of the wait-stream channel, `None` before `init` and after
/// `close`, with the record of every look [`WaitInbox::poll`] has taken into it.
pub struct WaitInbox {
    rx: Option<tokio::sync::mpsc::Receiver<Result<Backing, IpcError>>>,
    polls: Ghost<Seq<WaitPoll>>,
}

impl WaitInbox {
    /// Whether the channel is there.
    pub closed spec fn has_receiver(&self) -> bool {
        self.rx is Some
    }

    /// What the looks into the channel found, oldest first.
    pub closed spec fn polls(&self) -> Seq<WaitPoll> {
        self.polls@
    }

    /// An inbox without a channel, as before `init`.
    pub fn new() -> (inbox: Self)
        ensures
            !inbox.has_receiver(),
            inbox.polls() == Seq::<WaitPoll>::empty(),
    {
        WaitInbox { rx: None, polls: Ghost(Seq::empty()) }
    }

    /// Whether the channel is there.
    pub fn is_open(&self) -> (open: bool)
        ensures
            open == self.has_receiver(),
    {
        self.rx.is_some()
    }

    /// Receive on `rx` from now on.
    pub fn set_receiver(&mut self, rx: tokio::sync::mpsc::Receiver<Result<Backing, IpcError>>)
        ensures
            final(self).has_receiver(),
            final(self).polls() == old(self).polls(),
    {
        self.rx = Some(rx);
    }

    /// Take the channel out, leaving the inbox without one.
    pub fn take_receiver(&mut self) -> (rx: Option<tokio::sync::mpsc::Receiver<Result<Backing, IpcError>>>)
        ensures
            !final(self).has_receiver(),
            rx is Some == old(self).has_receiver(),
            final(self).polls() == old(self).polls(),
    {
        self.rx.take()
    }

    /// How many returns were waiting in the channel when this was called.
    pub(crate) fn pending(&self) -> (n: usize)
        requires
            self.has_receiver(),
    {
        match &self.rx {
            Some(receiver) => wait_channel_len(receiver),
            None => 0,
        }
    }

    /// Look once into the channel without blocking; what was found is added to the
    /// record.
    pub fn poll(&mut self) -> (found: WaitPoll)
        requires
            old(self).has_receiver(),
        ensures
            final(self).has_receiver(),
            final(self).polls() == old(self).polls().push(found),
    {
        let found = match &mut self.rx {
            Some(receiver) => wait_channel_try_recv(receiver),
            None => WaitPoll::Nothing,
        };
        proof {
            self.polls@ = self.polls@.push(found);
        }
        found
    }
}

} // verus!

