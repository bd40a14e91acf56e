//! The output callback: what the audio device calls, many times a second,
//! with a slice to fill.

use crate::queue::{poll, Polled, SampleBuffer};
use crossbeam::channel::Receiver;
use vstd::prelude::*;

verus! {

/// Every sample of `data` is `silence`.
pub open spec fn silent<T>(data: Seq<T>, silence: T) -> bool {
    forall|i: int| 0 <= i < data.len() ==> data[i] == silence
}

/// `x` is what `scale` makes of some sample at `volume`.
pub open spec fn is_scaled<T, F: Fn(T, u8) -> T>(scale: &F, volume: u8, x: T) -> bool {
    exists|s: T| #[trigger] scale.ensures((s, volume), x)
}

/// `after` is `before` with the samples of `raw` behind it, each as `scale`
/// made it at `volume`.
pub open spec fn appended<T, F: Fn(T, u8) -> T>(
    before: Seq<T>,
    after: Seq<T>,
    raw: Seq<T>,
    volume: u8,
    scale: &F,
) -> bool {
    &&& after.len() == before.len() + raw.len()
    &&& after.take(before.len() as int) == before
    &&& forall|i: int|
        0 <= i < raw.len() ==> scale.ensures((raw[i], volume), #[trigger] after[before.len() + i])
}

/// What one invocation of the callback did.
#[derive(Clone, Copy, Debug, PartialEq, Eq)]
pub struct CallbackReport {
    /// Samples copied into the device's slice; the rest of it is silence.
    pub emitted: usize,
    /// Samples taken out of the queue.
    pub absorbed: usize,
    /// This invocation was the first to run: the caller may now raise the
    /// thread's priority.
    pub warmed_up: bool,
    /// The slice could not be filled although the playlist is not over.
    pub underrun: bool,
    /// The queue was found closed; every later invocation is silent.
    pub finished: bool,
}

/// The state that the callback keeps between invocations: the samples taken
/// from the queue and not yet played, and two flags.
pub struct OutputCallback<T> {
    buf: Vec<T>,
    initialized: bool,
    is_done: bool,
}

/// What an invocation that ran leaves behind, for every answer that the
/// queue may have given.
///
/// The samples that were buffered before leave first and in their order; what
/// was taken from the queue follows, scaled at `volume`; `emitted` of them
/// went to the device and the others stay buffered; the slice ends in
/// silence. Nothing is lost and nothing is played twice.
pub open spec fn rendered<T, F: Fn(T, u8) -> T>(
    before: OutputCallback<T>,
    after: OutputCallback<T>,
    volume: u8,
    out: Seq<T>,
    silence: T,
    scale: &F,
    report: CallbackReport,
) -> bool {
    let emitted = report.emitted as int;
    let played = out.take(emitted) + after.buffered();
    &&& after.warmed_up()
    &&& report.warmed_up == !before.warmed_up()
    &&& emitted <= out.len()
    &&& emitted < out.len() ==> after.buffered().len() == 0
    &&& before.buffered().len() + report.absorbed == played.len()
    &&& played.take(before.buffered().len() as int) == before.buffered()
    &&& forall|i: int|
        before.buffered().len() <= i < played.len() ==> is_scaled(scale, volume, #[trigger] played[i])
    &&& silent(out.skip(emitted), silence)
    &&& report.absorbed > 0 ==> before.buffered().len() < out.len()
    &&& after.finished() ==> emitted < out.len()
    &&& report.finished == after.finished()
    &&& report.underrun == (emitted < out.len() && !after.finished())
}

/// The samples that one answer of the queue brings: those of the buffer, and
/// none where the queue had no buffer to give.
pub open spec fn brought<T>(answer: Polled<T>) -> Seq<T> {
    match answer {
        Polled::Buffer(buffer) => buffer@,
        Polled::Empty => Seq::empty(),
        Polled::Closed => Seq::empty(),
    }
}

/// The samples that the first `k` of `answers` bring, in the order in which
/// they came.
pub open spec fn poured<T>(answers: Seq<Polled<T>>, k: int) -> Seq<T>
    decreases k,
{
    if k <= 0 {
        Seq::empty()
    } else {
        poured(answers, k - 1) + brought(answers[k - 1])
    }
}

/// What refilling leaves behind where the queue gave `answers`, one for each
/// look at it.
///
/// The queue is looked at only while fewer than `size` samples are buffered,
/// and again only after an answer that was a buffer. What the buffers
/// brought stands behind what was buffered before, in the order in which it
/// came and scaled at `volume`. Playback is finished where the last answer
/// was that the queue is closed, and only there.
pub open spec fn refilled<T, F: Fn(T, u8) -> T>(
    before: OutputCallback<T>,
    after: OutputCallback<T>,
    answers: Seq<Polled<T>>,
    size: int,
    volume: u8,
    scale: &F,
) -> bool {
    let n = answers.len() as int;
    &&& after.warmed_up() == before.warmed_up()
    &&& appended(before.buffered(), after.buffered(), poured(answers, n), volume, scale)
    &&& forall|k: int|
        0 <= k < n ==> before.buffered().len() + (#[trigger] poured(answers, k)).len() < size
    &&& forall|k: int| 0 <= k < n - 1 ==> #[trigger] answers[k] is Buffer
    &&& if n == 0 {
        before.buffered().len() >= size && after.finished() == before.finished()
    } else {
        match answers[n - 1] {
            Polled::Buffer(_) => after.buffered().len() >= size && after.finished()
                == before.finished(),
            Polled::Empty => after.finished() == before.finished(),
            Polled::Closed => after.finished(),
        }
    }
}

/// What was appended in two steps was appended.
proof fn lemma_appended_twice<T, F: Fn(T, u8) -> T>(
    start: Seq<T>,
    held: Seq<T>,
    grown: Seq<T>,
    first: Seq<T>,
    second: Seq<T>,
    volume: u8,
    scale: &F,
)
    requires
        appended(start, held, first, volume, scale),
        appended(held, grown, second, volume, scale),
    ensures
        appended(start, grown, first + second, volume, scale),
{
    assert(grown.take(start.len() as int) =~= grown.take(held.len() as int).take(
        start.len() as int,
    ));
    assert forall|i: int| 0 <= i < (first + second).len() implies scale.ensures(
        ((first + second)[i], volume),
        #[trigger] grown[start.len() + i],
    ) by {
        if i < first.len() {
            assert(grown[start.len() + i] == grown.take(held.len() as int)[start.len() + i]);
        } else {
            assert(scale.ensures((second[i - first.len()], volume), grown[held.len() + (i - first.len())]));
        }
    }
}

/// Every sample that was appended is a scaled one.
proof fn lemma_appended_is_scaled<T, F: Fn(T, u8) -> T>(
    start: Seq<T>,
    grown: Seq<T>,
    raw: Seq<T>,
    volume: u8,
    scale: &F,
)
    requires
        appended(start, grown, raw, volume, scale),
    ensures
        forall|i: int|
            start.len() <= i < grown.len() ==> is_scaled(scale, volume, #[trigger] grown[i]),
{
    assert forall|i: int| start.len() <= i < grown.len() implies is_scaled(
        scale,
        volume,
        #[trigger] grown[i],
    ) by {
        assert(scale.ensures((raw[i - start.len()], volume), grown[start.len() + (i - start.len())]));
    }
}

/// One more answer leaves what the earlier answers brought as it was.
proof fn lemma_poured_prefix<T>(answers: Seq<Polled<T>>, next: Polled<T>, k: int)
    requires
        k <= answers.len(),
    ensures
        poured(answers.push(next), k) == poured(answers, k),
    decreases k,
{
    if k > 0 {
        lemma_poured_prefix(answers, next, k - 1);
        assert(answers.push(next)[k - 1] == answers[k - 1]);
    }
}

/// How many samples are missing where `held` are buffered and `size` wanted.
pub open spec fn shortfall(size: int, held: int) -> int {
    if held < size {
        size - held
    } else {
        0
    }
}

/// The report of an invocation that did nothing but write silence.
pub open spec fn quiet_report() -> CallbackReport {
    CallbackReport { emitted: 0, absorbed: 0, warmed_up: false, underrun: false, finished: false }
}

/// Writes `value` to every place of `data`.
pub fn fill<T: Copy>(data: &mut [T], value: T)
    ensures
        final(data)@.len() == old(data)@.len(),
        silent(final(data)@, value),
{
    let n: usize = data.len();
    let mut i: usize = 0;
    while i < n
        invariant
            i <= n == data@.len(),
            data@.len() == old(data)@.len(),
            forall|j: int| 0 <= j < i ==> data@[j] == value,
        decreases n - i,
    {
        data[i] = value;
        i += 1;
    }
}

impl<T> OutputCallback<T> {
    /// The samples taken from the queue and not yet played.
    pub closed spec fn buffered(&self) -> Seq<T> {
        self.buf@
    }

    /// The queue was found closed.
    pub closed spec fn finished(&self) -> bool {
        self.is_done
    }

    /// An invocation has run.
    pub closed spec fn warmed_up(&self) -> bool {
        self.initialized
    }

    /// The state before the first invocation.
    pub fn new() -> (callback: Self)
        ensures
            callback.buffered().len() == 0,
            !callback.finished(),
            !callback.warmed_up(),
    {
        OutputCallback { buf: Vec::new(), initialized: false, is_done: false }
    }

    /// Whether the queue was found closed.
    pub fn is_done(&self) -> (done: bool)
        ensures
            done == self.finished(),
    {
        self.is_done
    }

    /// The number of samples taken from the queue and not yet played.
    pub fn pending(&self) -> (n: usize)
        ensures
            n == self.buffered().len(),
    {
        self.buf.len()
    }

}

impl<T: Copy> OutputCallback<T> {
    /// Takes in what one look at the queue found, and says whether to look
    /// again.
    ///
    /// A buffer is appended, each sample scaled at `volume`. An empty queue
    /// changes nothing; a closed one ends playback. Neither is followed by
    /// another look.
    pub fn accept<F: Fn(T, u8) -> T>(&mut self, polled: Polled<T>, volume: u8, scale: &F) -> (more:
        bool)
        requires
            forall|s: T, v: u8| scale.requires((s, v)),
        ensures
            final(self).warmed_up() == old(self).warmed_up(),
            match polled {
                Polled::Buffer(buffer) => {
                    &&& more
                    &&& buffer@.len() > 0
                    &&& final(self).finished() == old(self).finished()
                    &&& appended(
                        old(self).buffered(),
                        final(self).buffered(),
                        buffer@,
                        volume,
                        scale,
                    )
                },
                Polled::Empty => !more && *final(self) == *old(self),
                Polled::Closed => {
                    &&& !more
                    &&& final(self).finished()
                    &&& final(self).buffered() == old(self).buffered()
                },
            },
    {
        match polled {
            Polled::Buffer(buffer) => {
                let n = buffer.len();
                let samples = buffer.samples();
                let mut i: usize = 0;
                while i < n
                    invariant
                        i <= n == samples@.len(),
                        samples@ == buffer@,
                        forall|s: T, v: u8| scale.requires((s, v)),
                        self.initialized == old(self).initialized,
                        self.is_done == old(self).is_done,
                        self.buf@.len() == old(self).buf@.len() + i,
                        self.buf@.take(old(self).buf@.len() as int) == old(self).buf@,
                        forall|j: int|
                            0 <= j < i ==> scale.ensures(
                                (samples@[j], volume),
                                #[trigger] self.buf@[old(self).buf@.len() + j],
                            ),
                    decreases n - i,
                {
                    let scaled = scale(samples[i], volume);
                    let ghost held = self.buf@;
                    self.buf.push(scaled);
                    assert(self.buf@.take(old(self).buf@.len() as int) =~= held.take(
                        old(self).buf@.len() as int,
                    ));
                    i += 1;
                }
                true
            },
            Polled::Empty => false,
            Polled::Closed => {
                self.is_done = true;
                false
            },
        }
    }

    /// Looks at the queue until `size` samples are buffered or the queue has
    /// no more to give, and takes in every answer as [`OutputCallback::accept`]
    /// does. Hands back the answers that the queue gave: see [`refilled`].
    fn refill<F: Fn(T, u8) -> T>(
        &mut self,
        queue: &Receiver<SampleBuffer<T>>,
        size: usize,
        volume: u8,
        scale: &F,
    ) -> (answers: Ghost<Seq<Polled<T>>>)
        requires
            forall|s: T, v: u8| scale.requires((s, v)),
            !old(self).finished(),
        ensures
            refilled(*old(self), *final(self), answers@, size as int, volume, scale),
            final(self).buffered().take(old(self).buffered().len() as int) == old(self).buffered(),
            forall|i: int|
                old(self).buffered().len() <= i < final(self).buffered().len() ==> is_scaled(
                    scale,
                    volume,
                    #[trigger] final(self).buffered()[i],
                ),
            final(self).buffered().len() > old(self).buffered().len() ==> old(self).buffered().len()
                < size,
            final(self).finished() ==> final(self).buffered().len() < size,
    {
        let ghost mut answers: Seq<Polled<T>> = Seq::empty();
        assert(self.buf@.take(self.buf@.len() as int) =~= self.buf@);
        while self.buf.len() < size
            invariant_except_break
                !self.is_done,
                forall|k: int| 0 <= k < answers.len() ==> #[trigger] answers[k] is Buffer,
            invariant
                forall|s: T, v: u8| scale.requires((s, v)),
                !old(self).is_done,
                self.initialized == old(self).initialized,
                appended(
                    old(self).buf@,
                    self.buf@,
                    poured(answers, answers.len() as int),
                    volume,
                    scale,
                ),
                forall|k: int|
                    0 <= k < answers.len() ==> old(self).buf@.len() + (#[trigger] poured(
                        answers,
                        k,
                    )).len() < size,
                forall|k: int| 0 <= k < answers.len() - 1 ==> #[trigger] answers[k] is Buffer,
                self.is_done <==> answers.len() > 0 && answers.last() is Closed,
            ensures
                refilled(*old(self), *self, answers, size as int, volume, scale),
            decreases shortfall(size as int, self.buf@.len() as int),
        {
            let ghost held = self.buf@;
            let polled = poll(queue);
            let ghost seen = polled;
            let more = self.accept(polled, volume, scale);
            proof {
                let n = answers.len() as int;
                let longer = answers.push(seen);
                assert forall|k: int| 0 <= k <= n implies poured(longer, k) == poured(
                    answers,
                    k,
                ) by {
                    lemma_poured_prefix(answers, seen, k);
                }
                assert(poured(longer, n + 1) == poured(answers, n) + brought(seen));
                match seen {
                    Polled::Buffer(buffer) => {
                        lemma_appended_twice(
                            old(self).buf@,
                            held,
                            self.buf@,
                            poured(answers, n),
                            buffer@,
                            volume,
                            scale,
                        );
                    },
                    _ => {
                        assert(poured(answers, n) + brought(seen) =~= poured(answers, n));
                    },
                }
                assert(old(self).buf@.len() + poured(longer, n).len() < size);
                answers = longer;
            }
            if !more {
                break;
            }
        }
        proof {
            lemma_appended_is_scaled(
                old(self).buf@,
                self.buf@,
                poured(answers, answers.len() as int),
                volume,
                scale,
            );
            if answers.len() > 0 {
                assert(poured(answers, 0).len() == 0);
                if self.is_done {
                    let n = answers.len() as int;
                    assert(poured(answers, n) =~= poured(answers, n - 1));
                }
            }
        }
        Ghost(answers)
    }

    /// Hands the oldest buffered samples to the device, as many as its slice
    /// takes; fills the rest of the slice with `silence`.
    fn emit(&mut self, data: &mut [T], silence: T) -> (emitted: usize)
        ensures
            final(data)@.len() == old(data)@.len(),
            final(self).warmed_up() == old(self).warmed_up(),
            final(self).finished() == old(self).finished(),
            emitted <= old(data)@.len(),
            emitted <= old(self).buffered().len(),
            emitted == old(data)@.len() || emitted == old(self).buffered().len(),
            final(data)@.take(emitted as int) == old(self).buffered().take(emitted as int),
            silent(final(data)@.skip(emitted as int), silence),
            final(self).buffered() == old(self).buffered().skip(emitted as int),
    {
        let size = data.len();
        let held = self.buf.len();
        let emitted = if size < held {
            size
        } else {
            held
        };
        let mut i: usize = 0;
        while i < emitted
            invariant
                i <= emitted <= size == data@.len(),
                emitted <= held == self.buf@.len(),
                data@.len() == old(data)@.len(),
                self.buf@ == old(self).buf@,
                forall|j: int| 0 <= j < i ==> data@[j] == self.buf@[j],
            decreases emitted - i,
        {
            data[i] = self.buf[i];
            i += 1;
        }
        while i < size
            invariant
                emitted <= i <= size == data@.len(),
                emitted <= self.buf@.len(),
                data@.len() == old(data)@.len(),
                self.buf@ == old(self).buf@,
                forall|j: int| 0 <= j < emitted ==> data@[j] == self.buf@[j],
                forall|j: int| emitted <= j < i ==> data@[j] == silence,
            decreases size - i,
        {
            data[i] = silence;
            i += 1;
        }
        assert(data@.take(emitted as int) =~= self.buf@.take(emitted as int));
        let rest = held - emitted;
        let mut k: usize = 0;
        while k < rest
            invariant
                k <= rest,
                rest + emitted == held == self.buf@.len(),
                self.buf@.len() == old(self).buf@.len(),
                self.initialized == old(self).initialized,
                self.is_done == old(self).is_done,
                forall|j: int| 0 <= j < k ==> self.buf@[j] == old(self).buf@[j + emitted],
                forall|j: int| k <= j < held ==> self.buf@[j] == old(self).buf@[j],
            decreases rest - k,
        {
            let sample = self.buf[k + emitted];
            self.buf.set(k, sample);
            k += 1;
        }
        self.buf.truncate(rest);
        assert(self.buf@ =~= old(self).buf@.skip(emitted as int));
        emitted
    }

    /// One invocation of the callback, short of moving the position on.
    ///
    /// While `paused` is set, or once the queue was found closed, the slice
    /// is filled with `silence` and nothing else happens. Otherwise the
    /// queue is looked at, as long as fewer samples are buffered than the
    /// slice takes and the queue has one more buffer, and the oldest samples
    /// are handed to the device: see [`rendered`].
    pub fn render<F: Fn(T, u8) -> T>(
        &mut self,
        paused: bool,
        volume: u8,
        queue: &Receiver<SampleBuffer<T>>,
        data: &mut [T],
        silence: T,
        scale: &F,
    ) -> (report: CallbackReport)
        requires
            forall|s: T, v: u8| scale.requires((s, v)),
        ensures
            final(data)@.len() == old(data)@.len(),
            paused || old(self).finished() ==> {
                &&& *final(self) == *old(self)
                &&& silent(final(data)@, silence)
                &&& report == quiet_report()
            },
            !(paused || old(self).finished()) ==> rendered(
                *old(self),
                *final(self),
                volume,
                final(data)@,
                silence,
                scale,
                report,
            ),
    {
        if paused || self.is_done {
            fill(data, silence);
            return CallbackReport {
                emitted: 0,
                absorbed: 0,
                warmed_up: false,
                underrun: false,
                finished: false,
            };
        }
        let size = data.len();
        let warmed_up = !self.initialized;
        if !self.initialized {
            let room = if size <= usize::MAX / 2 {
                size * 2
            } else {
                size
            };
            self.buf.reserve(room);
            self.initialized = true;
        }
        let held = self.buf.len();
        let _answers = self.refill(queue, size, volume, scale);
        let ghost filled = self.buf@;
        let absorbed = self.buf.len() - held;
        let emitted = self.emit(data, silence);
        proof {
            let played = data@.take(emitted as int) + self.buf@;
            assert(played =~= filled);
        }
        CallbackReport {
            emitted,
            absorbed,
            warmed_up,
            underrun: emitted < size && !self.is_done,
            finished: self.is_done,
        }
    }
}

} // verus!
