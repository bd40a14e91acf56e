//! The bounded queue that carries decoded samples from the reader to the
//! output callback, and the buffers that travel on it.

use crossbeam::channel::{Receiver, Sender, TryRecvError, TrySendError};
use vstd::prelude::*;

verus! {

#[verifier::external_type_specification]
#[verifier::external_body]
#[verifier::reject_recursive_types(T)]
pub struct ExReceiver<T>(Receiver<T>);

#[verifier::external_type_specification]
#[verifier::external_body]
#[verifier::reject_recursive_types(T)]
pub struct ExSender<T>(Sender<T>);

/// A run of interleaved samples on its way to the output callback. It is
/// never empty.
pub struct SampleBuffer<T> {
    samples: Vec<T>,
}

impl<T> View for SampleBuffer<T> {
    type V = Seq<T>;

    closed spec fn view(&self) -> Seq<T> {
        self.samples@
    }
}

impl<T> SampleBuffer<T> {
    #[verifier::type_invariant]
    spec fn filled(self) -> bool {
        self.samples@.len() > 0
    }

    /// The buffer that holds `samples`, or `None` where there are none.
    pub fn new(samples: Vec<T>) -> (r: Option<Self>)
        ensures
            r is None <==> samples@.len() == 0,
            r matches Some(buffer) ==> buffer@ == samples@,
    {
        if samples.len() == 0 {
            None
        } else {
            Some(SampleBuffer { samples })
        }
    }

    /// The number of samples, which is at least one.
    pub fn len(&self) -> (n: usize)
        ensures
            n == self@.len(),
            n > 0,
    {
        proof {
            use_type_invariant(self);
        }
        self.samples.len()
    }

    /// The samples, in interleaved channel order.
    pub fn samples(&self) -> (r: &Vec<T>)
        ensures
            r@ == self@,
    {
        &self.samples
    }
}

/// What one look at the receiving end of the queue found.
pub enum Polled<T> {
    /// The oldest buffer in the queue, taken out of it.
    Buffer(SampleBuffer<T>),
    /// Nothing waits, but the reader may still send.
    Empty,
    /// Nothing waits and the reader is gone: the playlist is over.
    Closed,
}

/// What became of a buffer that was offered to the queue.
pub enum Offered<T> {
    /// The queue took it.
    Sent,
    /// The queue is full; here is the buffer again.
    Full(SampleBuffer<T>),
    /// The callback is gone; here is the buffer again.
    Closed(SampleBuffer<T>),
}

/// Takes the oldest buffer out of the queue, if one waits there, without
/// blocking: `Receiver::try_recv`.
///
/// Which of the three answers comes depends on what the sending thread has
/// done by now, so nothing is claimed of it.
#[verifier::external_body]
pub(crate) fn poll<T>(queue: &Receiver<SampleBuffer<T>>) -> (polled: Polled<T>) {
    match queue.try_recv() {
        Ok(buffer) => Polled::Buffer(buffer),
        Err(TryRecvError::Empty) => Polled::Empty,
        Err(TryRecvError::Disconnected) => Polled::Closed,
    }
}

/// Puts `buffer` into the queue if there is room, without blocking:
/// `Sender::try_send`.
///
/// Whether there is room depends on the receiving thread. Claimed is only
/// that a buffer which was not taken comes back as it was handed in.
#[verifier::external_body]
pub(crate) fn offer<T>(queue: &Sender<SampleBuffer<T>>, buffer: SampleBuffer<T>) -> (offered:
    Offered<T>)
    ensures
        offered matches Offered::Full(back) ==> back == buffer,
        offered matches Offered::Closed(back) ==> back == buffer,
{
    match queue.try_send(buffer) {
        Ok(()) => Offered::Sent,
        Err(TrySendError::Full(back)) => Offered::Full(back),
        Err(TrySendError::Disconnected(back)) => Offered::Closed(back),
    }
}

} // verus!
