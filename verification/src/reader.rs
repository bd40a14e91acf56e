//! The decisions of the reader: the thread that decodes the playlist and
//! feeds the queue. What it skips, what it sends, and when it stops.

use crate::cells::{frames_in, frames_of, wrapping_sum, CurrentSample};
use crate::queue::{offer, Offered, SampleBuffer};
use crate::skip::{drained, SkipSecs};
use crossbeam::channel::Sender;
use vstd::prelude::*;

verus! {

/// What the decoder made of the next packet of the file being read.
pub enum Decoded<T> {
    /// A block of audio as interleaved samples, with the stream's frame rate
    /// and channel count.
    Block { samples: Vec<T>, sample_rate: u32, channels: usize },
    /// A packet of another stream in the same file.
    OtherTrack,
    /// The file has no more packets.
    EndOfStream,
    /// The next packet could not be read.
    ReadFailed,
    /// The packet is damaged; the next may be sound.
    DecodeFailed,
    /// The decoder cannot go on with this file.
    Fatal,
}

/// What the reader does next.
pub enum ReaderStep<T> {
    /// Offer this buffer to the queue.
    Offer(SampleBuffer<T>),
    /// Read the next packet of the same file.
    NextPacket,
    /// Leave this file and open the next.
    NextFile,
}

/// What the reader does after it has offered a buffer to the queue.
pub enum Enqueued<T> {
    /// The buffer is on its way: read on.
    Sent,
    /// The queue was full: wait a while, then offer this same buffer again.
    Retry(SampleBuffer<T>),
    /// The callback is gone: stop reading.
    Stop,
}

/// The frames skipped from a block of `block` frames under a budget of
/// `budget`: all that the budget covers.
pub open spec fn skipped(budget: int, block: int) -> int {
    if budget < block {
        budget
    } else {
        block
    }
}

/// The frames in a run of blocks.
pub open spec fn frames_total(blocks: Seq<nat>) -> int
    decreases blocks.len(),
{
    if blocks.len() == 0 {
        0
    } else {
        frames_total(blocks.drop_last()) + blocks.last()
    }
}

/// The frames skipped from a run of blocks that the reader takes in one
/// after another, starting with a budget of `budget`.
pub open spec fn skipped_total(blocks: Seq<nat>, budget: int) -> int
    decreases blocks.len(),
{
    if blocks.len() == 0 {
        0
    } else {
        let before = skipped_total(blocks.drop_last(), budget);
        before + skipped(budget - before, blocks.last() as int)
    }
}

/// The skip budget is spent once and in full: of a run of blocks the reader
/// skips as many frames as the budget names, or all of them where the run is
/// shorter, and every other frame goes to the queue.
pub proof fn lemma_skip_spends_budget(blocks: Seq<nat>, budget: int)
    requires
        budget >= 0,
    ensures
        skipped_total(blocks, budget) == skipped(budget, frames_total(blocks)),
    decreases blocks.len(),
{
    if blocks.len() > 0 {
        lemma_skip_spends_budget(blocks.drop_last(), budget);
        lemma_frames_total_nonnegative(blocks.drop_last());
    }
}

/// A run of blocks has no negative length.
pub proof fn lemma_frames_total_nonnegative(blocks: Seq<nat>)
    ensures
        frames_total(blocks) >= 0,
    decreases blocks.len(),
{
    if blocks.len() > 0 {
        lemma_frames_total_nonnegative(blocks.drop_last());
    }
}

/// The reader's memory between blocks: the frames that are still to be
/// skipped.
pub struct Reader {
    skip_samples: u64,
}

impl Reader {
    /// The frames still to be skipped.
    pub closed spec fn budget(&self) -> u64 {
        self.skip_samples
    }

    /// A reader with nothing to skip yet.
    pub fn new() -> (reader: Self)
        ensures
            reader.budget() == 0,
    {
        Reader { skip_samples: 0 }
    }

    /// The frames still to be skipped.
    pub fn pending(&self) -> (frames: u64)
        ensures
            frames == self.budget(),
    {
        self.skip_samples
    }

    /// Decides what follows the decoder's answer for one packet.
    ///
    /// A block first adds the seconds waiting in `skip_secs` to the budget, as
    /// frames at the block's rate. Frames that the budget covers are cut off
    /// the front of the block and counted as played; what is left of the
    /// block is offered to the queue, and where nothing is left the next
    /// packet is read. A packet of another stream and a damaged packet are
    /// passed over; at the end of the file, and on any other failure, the
    /// reader goes to the next file.
    pub fn step<T>(
        &mut self,
        event: Decoded<T>,
        skip_secs: &mut SkipSecs,
        current_sample: &mut CurrentSample,
    ) -> (next: ReaderStep<T>)
        requires
            event matches Decoded::Block { sample_rate, .. } ==> old(self).budget() + drained(
                old(skip_secs)@ as nat,
                sample_rate,
            ) <= u64::MAX,
        ensures
            match event {
                Decoded::Block { samples, sample_rate, channels } => {
                    let budget = old(self).budget() + drained(
                        old(skip_secs)@ as nat,
                        sample_rate,
                    );
                    let cut = skipped(budget, frames_in(samples@.len() as int, channels as int));
                    &&& final(self).budget() == budget - cut
                    &&& final(skip_secs)@ == 0
                    &&& final(current_sample)@ == wrapping_sum(old(current_sample)@, cut as u64)
                    &&& cut * channels <= samples@.len()
                    &&& if cut * channels == samples@.len() {
                        next is NextPacket
                    } else {
                        next matches ReaderStep::Offer(buffer) && buffer@ == samples@.skip(
                            cut * channels,
                        )
                    }
                },
                Decoded::OtherTrack | Decoded::DecodeFailed => {
                    &&& next is NextPacket
                    &&& *final(self) == *old(self)
                    &&& *final(skip_secs) == *old(skip_secs)
                    &&& *final(current_sample) == *old(current_sample)
                },
                Decoded::EndOfStream | Decoded::ReadFailed | Decoded::Fatal => {
                    &&& next is NextFile
                    &&& *final(self) == *old(self)
                    &&& *final(skip_secs) == *old(skip_secs)
                    &&& *final(current_sample) == *old(current_sample)
                },
            },
    {
        match event {
            Decoded::Block { samples, sample_rate, channels } => {
                let mut samples = samples;
                let budget = self.skip_samples + skip_secs.drain_as_interleaved_samples(
                    sample_rate,
                );
                let frames = frames_of(samples.len(), channels);
                let cut: usize = if budget < frames as u64 {
                    budget as usize
                } else {
                    frames
                };
                assert(cut * channels <= samples@.len()) by (nonlinear_arith)
                    requires
                        cut <= frames,
                        frames * channels <= samples@.len(),
                ;
                self.skip_samples = budget - cut as u64;
                current_sample.advance(cut as u64);
                let ghost whole = samples@;
                let kept = samples.split_off(cut * channels);
                assert(kept@ =~= whole.skip(cut * channels));
                match SampleBuffer::new(kept) {
                    Some(buffer) => ReaderStep::Offer(buffer),
                    None => ReaderStep::NextPacket,
                }
            },
            Decoded::OtherTrack => ReaderStep::NextPacket,
            Decoded::DecodeFailed => ReaderStep::NextPacket,
            Decoded::EndOfStream => ReaderStep::NextFile,
            Decoded::ReadFailed => ReaderStep::NextFile,
            Decoded::Fatal => ReaderStep::NextFile,
        }
    }

    /// Decides what follows the queue's answer to an offer.
    ///
    /// A full queue is no failure: it holds the reader back. The buffer comes
    /// back to be offered again after a pause.
    pub fn after_offer<T>(offered: Offered<T>) -> (next: Enqueued<T>)
        ensures
            match offered {
                Offered::Sent => next is Sent,
                Offered::Full(buffer) => next == Enqueued::Retry(buffer),
                Offered::Closed(_) => next is Stop,
            },
    {
        match offered {
            Offered::Sent => Enqueued::Sent,
            Offered::Full(buffer) => Enqueued::Retry(buffer),
            Offered::Closed(_) => Enqueued::Stop,
        }
    }

    /// Offers `buffer` to the queue, without blocking, and decides what
    /// follows.
    ///
    /// Whether the queue has room is for the callback's thread to say; a
    /// buffer that is handed back for another try is the one that was
    /// offered.
    pub fn enqueue<T>(queue: &Sender<SampleBuffer<T>>, buffer: SampleBuffer<T>) -> (next: Enqueued<
        T,
    >)
        ensures
            next matches Enqueued::Retry(back) ==> back == buffer,
    {
        Self::after_offer(offer(queue, buffer))
    }
}

} // verus!
