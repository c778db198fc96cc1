//! The two halves of one directed edge: a `Pusher` that enqueues and a
//! `Puller` that polls.
use vstd::prelude::*;
use std::sync::mpsc::{Receiver, Sender};

verus! {

#[verifier::external_type_specification]
#[verifier::external_body]
#[verifier::reject_recursive_types(T)]
pub struct ExSender<T>(Sender<T>);

#[verifier::external_type_specification]
#[verifier::external_body]
#[verifier::reject_recursive_types(T)]
pub struct ExReceiver<T>(Receiver<T>);

/// Relies on std::sync::mpsc::channel: a fresh unbounded FIFO queue, returned
/// as its write end and its read end.
#[verifier::external_body]
pub(crate) fn fresh_queue<T>() -> (Sender<T>, Receiver<T>) {
    std::sync::mpsc::channel()
}

/// Relies on Sender::clone: a second handle on the same write end.
#[verifier::external_body]
fn share_sender<T>(s: &Sender<T>) -> Sender<T> {
    s.clone()
}

/// Relies on Sender::send: the value is enqueued, or, when the read end is
/// gone, handed back unchanged inside the error.
#[verifier::external_body]
fn send_value<T>(s: &Sender<T>, v: T) -> (r: Result<(), T>)
    ensures
        r matches Err(back) ==> back == v,
{
    s.send(v).map_err(|e| e.0)
}

/// Relies on Receiver::try_recv: at most one value, taken without waiting;
/// `None` when the queue is empty or closed.
#[verifier::external_body]
fn poll_value<T>(r: &Receiver<T>) -> Option<T> {
    r.try_recv().ok()
}

/// Where an endpoint sits in the mesh: the table slot it was made for and the
/// worker that receives on its edge.
#[derive(Clone, Copy, PartialEq, Eq, Debug)]
pub struct Edge {
    pub slot: usize,
    pub dest: usize,
}

/// The push half of an intra-process channel, bound to one destination.
#[verifier::reject_recursive_types(T)]
pub struct Pusher<T> {
    target: Sender<T>,
    edge: Edge,
}

/// Why a push did not go through.
#[derive(Clone, Copy, PartialEq, Eq, Debug)]
pub enum PushError {
    /// The receiving worker is gone: its puller was dropped.
    Disconnected,
}

impl<T> Pusher<T> {
    pub(crate) fn new(target: Sender<T>, edge: Edge) -> (p: Self)
        ensures
            p.edge() == edge,
    {
        Pusher { target, edge }
    }

    pub closed spec fn edge(&self) -> Edge {
        self.edge
    }

    /// The slot and destination this pusher sends to.
    pub fn location(&self) -> (e: Edge)
        ensures
            e == self.edge(),
    {
        self.edge
    }

    /// Enqueues the value held in `element`, if any, and leaves `element`
    /// empty. An empty `element` is a no-op. When the destination's puller is
    /// gone the value is put back and `Disconnected` is returned.
    pub fn push(&mut self, element: &mut Option<T>) -> (r: Result<(), PushError>)
        ensures
            final(self).edge() == old(self).edge(),
            r is Ok ==> *final(element) == None::<T>,
            r is Err ==> (*old(element)) is Some && *final(element) == *old(element),
            (*old(element)) is None ==> r is Ok,
    {
        match element.take() {
            None => Ok(()),
            Some(v) => match send_value(&self.target, v) {
                Ok(()) => Ok(()),
                Err(back) => {
                    *element = Some(back);
                    Err(PushError::Disconnected)
                },
            },
        }
    }
}

/// A second pusher on the same write end, to the same destination.
impl<T> Clone for Pusher<T> {
    fn clone(&self) -> (p: Self)
        ensures
            p.edge() == self.edge(),
    {
        Pusher { target: share_sender(&self.target), edge: self.edge }
    }
}

/// The pull half of an intra-process channel: the read end of the queue of
/// one worker, and the value most recently received.
#[verifier::reject_recursive_types(T)]
pub struct Puller<T> {
    current: Option<T>,
    source: Receiver<T>,
    edge: Edge,
}

impl<T> Puller<T> {
    pub(crate) fn new(source: Receiver<T>, edge: Edge) -> (p: Self)
        ensures
            p.edge() == edge,
            p.current() == None::<T>,
    {
        Puller { current: None, source, edge }
    }

    pub closed spec fn edge(&self) -> Edge {
        self.edge
    }

    pub closed spec fn current(&self) -> Option<T> {
        self.current
    }

    /// The slot and worker this puller receives for.
    pub fn location(&self) -> (e: Edge)
        ensures
            e == self.edge(),
    {
        self.edge
    }

    /// Polls the queue once, without waiting. The returned slot holds the
    /// received value, or `None` when nothing was pending; whatever the caller
    /// leaves in it stays until the next poll.
    pub fn pull(&mut self) -> (r: &mut Option<T>)
        ensures
            final(self).edge() == old(self).edge(),
            final(self).current() == *final(r),
    {
        self.current = poll_value(&self.source);
        &mut self.current
    }
}

} // verus!
