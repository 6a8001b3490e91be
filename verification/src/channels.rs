//! Trusted boundary to crossbeam's channels: the mailboxes through which
//! every mutation request reaches the actor, and the dedicated outbound
//! channel of each client.
//!
//! A channel is shared between threads, so which message a receive yields —
//! or whether one is there at all — depends on what other threads have
//! done; nothing is promised of the values, only how failures surface.

use crate::errors::Error;
use vstd::prelude::*;

verus! {

#[verifier::external_type_specification]
#[verifier::external_body]
#[verifier::reject_recursive_types(T)]
pub struct ExSender<T>(crossbeam::channel::Sender<T>);

#[verifier::external_type_specification]
#[verifier::external_body]
#[verifier::reject_recursive_types(T)]
pub struct ExReceiver<T>(crossbeam::channel::Receiver<T>);

/// What a non-blocking receive found.
pub enum TryRecv<T> {
    /// A message was waiting.
    Message(T),
    /// No message is ready, but senders still exist.
    Empty,
    /// No message is ready and every sender is gone.
    Disconnected,
}

/// Relies on `crossbeam::channel::unbounded`: a fresh first-in-first-out
/// channel of unbounded capacity, as a connected sender/receiver pair.
#[verifier::external_body]
pub(crate) fn channel_unbounded<T>() -> (
    crossbeam::channel::Sender<T>,
    crossbeam::channel::Receiver<T>,
) {
    crossbeam::channel::unbounded()
}

/// Relies on `crossbeam::channel::Sender::send` on an unbounded channel:
/// never blocks, and fails exactly when every receiver has been dropped,
/// in which case the message is lost.
#[verifier::external_body]
pub(crate) fn channel_send<T>(s: &crossbeam::channel::Sender<T>, msg: T) -> (r: Result<(), Error>)
    ensures
        r is Err ==> r->Err_0 is ChannelClosed,
{
    match s.send(msg) {
        Ok(()) => Ok(()),
        Err(_) => Err(Error::ChannelClosed),
    }
}

/// Relies on `crossbeam::channel::Receiver::recv`: blocks until a message
/// arrives or every sender is gone; which message arrives depends on other
/// threads, so nothing is promised of its value.
#[verifier::external_body]
pub(crate) fn channel_recv<T>(r: &crossbeam::channel::Receiver<T>) -> (res: Result<T, Error>)
    ensures
        res is Err ==> res->Err_0 is ChannelClosed,
{
    match r.recv() {
        Ok(v) => Ok(v),
        Err(_) => Err(Error::ChannelClosed),
    }
}

/// Relies on `crossbeam::channel::Receiver::try_recv`: never blocks, and
/// tells a momentarily empty channel apart from one whose senders are all
/// gone; which message arrives, if any, depends on other threads.
#[verifier::external_body]
pub(crate) fn channel_try_recv<T>(r: &crossbeam::channel::Receiver<T>) -> TryRecv<T> {
    match r.try_recv() {
        Ok(v) => TryRecv::Message(v),
        Err(crossbeam::channel::TryRecvError::Empty) => TryRecv::Empty,
        Err(crossbeam::channel::TryRecvError::Disconnected) => TryRecv::Disconnected,
    }
}

/// Relies on `crossbeam::channel::Sender::clone`: another sender into the
/// same channel.
#[verifier::external_body]
pub(crate) fn channel_clone_sender<T>(s: &crossbeam::channel::Sender<T>) -> crossbeam::channel::Sender<
    T,
> {
    s.clone()
}

} // verus!
