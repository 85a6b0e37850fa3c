use std::sync::mpsc::{Receiver, SendError, Sender, TryRecvError};
use vstd::prelude::*;

verus! {

/// std's mpsc sender, carried through as an opaque value.
#[verifier::external_type_specification]
#[verifier::external_body]
#[verifier::reject_recursive_types(T)]
pub struct ExSender<T>(Sender<T>);

/// std's mpsc receiver, carried through as an opaque value.
#[verifier::external_type_specification]
#[verifier::external_body]
#[verifier::reject_recursive_types(T)]
pub struct ExReceiver<T>(Receiver<T>);

/// The error of a send into a channel whose receiver is gone, carried through as an opaque
/// value.
#[verifier::external_type_specification]
#[verifier::external_body]
#[verifier::reject_recursive_types(T)]
pub struct ExSendError<T>(SendError<T>);

/// The error of a receive that found nothing queued, carried through as an opaque value.
#[verifier::external_type_specification]
#[verifier::external_body]
pub struct ExTryRecvError(TryRecvError);

/// Relies on std::sync::mpsc::channel: a new unbounded channel, as a sender and the receiver
/// of the same queue.
pub assume_specification<T>[ std::sync::mpsc::channel::<T> ]() -> (Sender<T>, Receiver<T>);

/// Relies on Sender::clone: another sender into the same channel.
pub assume_specification<T>[ <Sender<T> as Clone>::clone ](s: &Sender<T>) -> Sender<T>;

/// Relies on Sender::send: queues the value without blocking; fails only when the receiver
/// has been dropped.
pub assume_specification<T>[ Sender::<T>::send ](s: &Sender<T>, t: T) -> Result<
    (),
    SendError<T>,
>;

/// Relies on Receiver::try_recv: takes the oldest queued value without blocking, or fails
/// when none is queued.
pub assume_specification<T>[ Receiver::<T>::try_recv ](r: &Receiver<T>) -> Result<
    T,
    TryRecvError,
>;

/// A channel that keeps its receiver and hands out senders.
#[verifier::reject_recursive_types(T)]
pub struct Channel<T> {
    sender: Sender<T>,
    receiver: Receiver<T>,
}

impl<T> Channel<T> {
    /// A new, empty channel.
    pub fn new() -> Self {
        let (sender, receiver) = std::sync::mpsc::channel();
        Channel { sender, receiver }
    }

    /// A new sender into this channel.
    pub fn sender(&self) -> Sender<T> {
        self.sender.clone()
    }

    /// The receiving end of this channel.
    pub fn receiver(&self) -> &Receiver<T> {
        &self.receiver
    }
}

} // verus!
