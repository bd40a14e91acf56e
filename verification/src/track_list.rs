//! The playlist: an ordered run of tracks, the frames they hold in total, and
//! the arithmetic that turns a playback position into the track being heard.

use crate::track::{complete, described, rejection, FlacTag, Track, TrackMetadataError, TrackView};
use vstd::prelude::*;

verus! {

/// The format that every track of a playlist shares.
#[derive(Clone, Copy, Debug, PartialEq, Eq)]
pub struct AudioParams {
    pub channel_count: usize,
    pub sample_rate: usize,
}

/// What an output device is opened with.
#[derive(Clone, Copy, Debug, PartialEq, Eq)]
pub struct OutputDeviceParameters {
    pub sample_rate: usize,
    pub channels_count: usize,
    /// Frames that the device asks for in one callback.
    pub channel_sample_count: usize,
}

impl AudioParams {
    /// The buffer size hinted to the scheduler when the audio thread is
    /// promoted; zero leaves the choice to the system.
    pub fn audio_buffer_frames(&self) -> (r: u32)
        ensures
            r == 0,
    {
        0
    }

    /// Frames per callback: a tenth of a second of audio.
    pub fn channel_sample_count(&self) -> (r: usize)
        ensures
            r == self.sample_rate / 10,
    {
        self.sample_rate / 10
    }

    pub fn output_device_parameters(&self) -> (r: OutputDeviceParameters)
        ensures
            r == (OutputDeviceParameters {
                sample_rate: self.sample_rate,
                channels_count: self.channel_count,
                channel_sample_count: self.sample_rate / 10,
            }),
    {
        OutputDeviceParameters {
            sample_rate: self.sample_rate,
            channels_count: self.channel_count,
            channel_sample_count: self.channel_sample_count(),
        }
    }
}

/// Why a playlist cannot be built, or has no format.
#[derive(Debug, PartialEq)]
pub enum TrackListError {
    /// A file lacks something that a track needs.
    Metadata(TrackMetadataError),
    /// The tracks disagree on sample rate or channel count.
    InconsistentFormat,
    /// The list has no track.
    Empty,
    /// The tracks hold more frames together than a 64-bit counter can count.
    TooLong,
}

/// One file handed to [`TrackList::unsafe_from_files`]: its path and what was
/// read out of it.
#[derive(Debug)]
pub struct FlacFile {
    pub path: String,
    pub tag: FlacTag,
}

/// The values of a run of tracks.
pub open spec fn views(tracks: Seq<Track>) -> Seq<TrackView> {
    Seq::new(tracks.len(), |i: int| tracks[i]@)
}

/// The tracks that a run of complete files describes.
pub open spec fn described_all(files: Seq<FlacFile>) -> Seq<TrackView> {
    Seq::new(files.len(), |i: int| described(files[i].path@, files[i].tag))
}

/// The frames of the first `n` tracks together: where track `n` starts.
pub open spec fn samples_before(tracks: Seq<TrackView>, n: int) -> int
    decreases n,
{
    if n <= 0 {
        0
    } else {
        samples_before(tracks, n - 1) + tracks[n - 1].samples
    }
}

/// The frames of all tracks together.
pub open spec fn samples_in(tracks: Seq<TrackView>) -> int {
    samples_before(tracks, tracks.len() as int)
}

/// Every track has frames, channels and a sample rate.
pub open spec fn valid_tracks(tracks: Seq<TrackView>) -> bool {
    forall|i: int|
        0 <= i < tracks.len() ==> {
            &&& (#[trigger] tracks[i]).samples > 0
            &&& tracks[i].channels > 0
            &&& tracks[i].sample_rate > 0
        }
}

/// All tracks have the sample rate and the channel count of the first.
pub open spec fn same_format(tracks: Seq<TrackView>) -> bool {
    forall|i: int|
        0 <= i < tracks.len() ==> {
            &&& (#[trigger] tracks[i]).channels == tracks[0].channels
            &&& tracks[i].sample_rate == tracks[0].sample_rate
        }
}

/// Track `i` is the first whose end lies beyond frame `s`.
pub open spec fn is_playing(tracks: Seq<TrackView>, s: int, i: int) -> bool {
    &&& 0 <= i < tracks.len()
    &&& samples_before(tracks, i + 1) > s
    &&& forall|k: int| 0 <= k < i ==> #[trigger] samples_before(tracks, k + 1) <= s
}

/// The track heard at frame `s`: the first whose end lies beyond `s`; the last
/// track once `s` is past the end of the list; 0 for a list without tracks.
pub open spec fn playing_index(tracks: Seq<TrackView>, s: int) -> int {
    if exists|i: int| is_playing(tracks, s, i) {
        choose|i: int| is_playing(tracks, s, i)
    } else if tracks.len() > 0 {
        tracks.len() - 1
    } else {
        0
    }
}

/// File `i` is the first that cannot become a track.
pub open spec fn first_incomplete(files: Seq<FlacFile>, i: int) -> bool {
    &&& 0 <= i < files.len()
    &&& !complete(files[i].tag)
    &&& forall|k: int| 0 <= k < i ==> complete(#[trigger] files[k].tag)
}

/// Every file can become a track.
pub open spec fn all_complete(files: Seq<FlacFile>) -> bool {
    forall|k: int| 0 <= k < files.len() ==> complete(#[trigger] files[k].tag)
}

/// Start points depend only on the tracks before them.
pub proof fn lemma_samples_before_prefix(a: Seq<TrackView>, b: Seq<TrackView>, n: int)
    requires
        0 <= n <= a.len(),
        n <= b.len(),
        forall|i: int| 0 <= i < n ==> a[i].samples == b[i].samples,
    ensures
        samples_before(a, n) == samples_before(b, n),
    decreases n,
{
    if n > 0 {
        lemma_samples_before_prefix(a, b, n - 1);
    }
}

/// Start points never decrease along the list.
pub proof fn lemma_samples_before_monotonic(tracks: Seq<TrackView>, i: int, j: int)
    requires
        0 <= i <= j,
    ensures
        0 <= samples_before(tracks, i) <= samples_before(tracks, j),
    decreases j,
{
    if j > 0 {
        if i < j {
            lemma_samples_before_monotonic(tracks, i, j - 1);
        } else {
            lemma_samples_before_monotonic(tracks, i - 1, j - 1);
        }
    }
}

/// Where every track has frames, start points grow strictly.
pub proof fn lemma_samples_before_strict(tracks: Seq<TrackView>, i: int, j: int)
    requires
        valid_tracks(tracks),
        0 <= i < j <= tracks.len(),
    ensures
        samples_before(tracks, i) < samples_before(tracks, j),
    decreases j,
{
    if i < j - 1 {
        lemma_samples_before_strict(tracks, i, j - 1);
    }
}

/// The frames of two runs of tracks laid end to end add up.
pub proof fn lemma_total_samples_concat(a: Seq<TrackView>, b: Seq<TrackView>, n: int)
    requires
        0 <= n <= b.len(),
    ensures
        samples_before(a + b, a.len() + n) == samples_in(a) + samples_before(b, n),
    decreases n,
{
    if n == 0 {
        lemma_samples_before_prefix(a + b, a, a.len() as int);
    } else {
        lemma_total_samples_concat(a, b, n - 1);
        assert((a + b)[a.len() + n - 1] == b[n - 1]);
    }
}

/// At most one track is the first whose end lies beyond `s`, and it is the one
/// that [`playing_index`] names.
pub proof fn lemma_playing_index_is(tracks: Seq<TrackView>, s: int, i: int)
    requires
        is_playing(tracks, s, i),
    ensures
        playing_index(tracks, s) == i,
{
    let j = choose|j: int| is_playing(tracks, s, j);
    if j < i {
        assert(samples_before(tracks, j + 1) <= s);
    } else if i < j {
        assert(samples_before(tracks, i + 1) <= s);
    }
}

/// A later position is never heard in an earlier track: the track playing
/// at `earlier` comes no later in the list than the one playing at `later`.
pub proof fn lemma_find_playing_monotonic(tracks: Seq<TrackView>, earlier: int, later: int)
    requires
        earlier <= later,
    ensures
        playing_index(tracks, earlier) <= playing_index(tracks, later),
{
    if exists|i: int| is_playing(tracks, later, i) {
        let bound = choose|i: int| is_playing(tracks, later, i);
        // The end of that track lies beyond `earlier` too, so the first such
        // track is at or before it.
        let first = first_ending_after(tracks, earlier, bound);
        lemma_playing_index_is(tracks, earlier, first);
    } else if exists|i: int| is_playing(tracks, earlier, i) {
        let first = choose|i: int| is_playing(tracks, earlier, i);
        assert(first <= tracks.len() - 1);
    }
}

/// The first track whose end lies beyond `s`, given one (`bound`) whose end does.
proof fn first_ending_after(tracks: Seq<TrackView>, s: int, bound: int) -> (i: int)
    requires
        0 <= bound < tracks.len(),
        samples_before(tracks, bound + 1) > s,
    ensures
        is_playing(tracks, s, i),
        i <= bound,
    decreases bound,
{
    if exists|k: int| 0 <= k < bound && #[trigger] samples_before(tracks, k + 1) > s {
        let k = choose|k: int| 0 <= k < bound && #[trigger] samples_before(tracks, k + 1) > s;
        first_ending_after(tracks, s, k)
    } else {
        bound
    }
}

/// At a boundary the next track takes over: with `end` the frame at which
/// track `i` ends, frame `end - 1` is heard in track `i`, and frame `end` in
/// track `i + 1` where the list has one.
pub proof fn lemma_find_playing_boundary(tracks: Seq<TrackView>, i: int)
    requires
        valid_tracks(tracks),
        0 <= i < tracks.len(),
    ensures
        playing_index(tracks, samples_before(tracks, i + 1) - 1) == i,
        i + 1 < tracks.len() ==> playing_index(tracks, samples_before(tracks, i + 1)) == i + 1,
{
    let end = samples_before(tracks, i + 1);
    assert forall|k: int| 0 <= k < i implies #[trigger] samples_before(tracks, k + 1) <= end
        - 1 by {
        lemma_samples_before_strict(tracks, k + 1, i + 1);
    }
    lemma_playing_index_is(tracks, end - 1, i);
    if i + 1 < tracks.len() {
        assert forall|k: int| 0 <= k < i + 1 implies #[trigger] samples_before(tracks, k + 1)
            <= end by {
            lemma_samples_before_monotonic(tracks, k + 1, i + 1);
        }
        lemma_samples_before_strict(tracks, i + 1, i + 2);
        lemma_playing_index_is(tracks, end, i + 1);
    }
}

/// An ordered list of tracks with the number of frames they hold together.
///
/// The count is kept equal to the sum of the tracks' frames by every
/// operation; the tracks are never removed or reordered.
#[derive(Debug)]
pub struct TrackList {
    tracks: Vec<Track>,
    total_samples: u64,
}

impl View for TrackList {
    type V = Seq<TrackView>;

    closed spec fn view(&self) -> Seq<TrackView> {
        views(self.tracks@)
    }
}

impl TrackList {
    #[verifier::type_invariant]
    spec fn consistent(self) -> bool {
        &&& self.total_samples as int == samples_in(views(self.tracks@))
        &&& valid_tracks(views(self.tracks@))
    }

    /// An empty list.
    ///
    /// A list without tracks has no format: [`TrackList::audio_params`]
    /// refuses it.
    pub fn unsafe_new() -> (list: Self)
        ensures
            list@ == Seq::<TrackView>::empty(),
    {
        let list = TrackList { tracks: Vec::new(), total_samples: 0 };
        assert(list@ =~= Seq::<TrackView>::empty());
        list
    }

    /// Builds the list of the given files, in their order.
    ///
    /// Fails with the error of the first file that cannot become a track; then
    /// with `TooLong` where the frames cannot be counted; then with
    /// `InconsistentFormat` where two tracks differ in sample rate or channel
    /// count. Without files the list is empty.
    pub fn unsafe_from_files(files: Vec<FlacFile>) -> (r: Result<Self, TrackListError>)
        ensures
            r is Ok <==> {
                &&& all_complete(files@)
                &&& samples_in(described_all(files@)) <= u64::MAX
                &&& same_format(described_all(files@))
            },
            r matches Ok(list) ==> list@ == described_all(files@),
            forall|i: int| #[trigger]
                first_incomplete(files@, i) ==> (r matches Err(TrackListError::Metadata(e))
                    && rejection(files@[i].path@, files@[i].tag, e)),
            all_complete(files@) && samples_in(described_all(files@)) > u64::MAX ==> r == Err::<
                Self,
                TrackListError,
            >(TrackListError::TooLong),
            all_complete(files@) && samples_in(described_all(files@)) <= u64::MAX
                && !same_format(described_all(files@)) ==> r == Err::<Self, TrackListError>(
                TrackListError::InconsistentFormat,
            ),
    {
        let mut tracks: Vec<Track> = Vec::new();
        let mut total: u64 = 0;
        let mut overflow = false;
        let mut i: usize = 0;
        while i < files.len()
            invariant
                i <= files@.len(),
                tracks@.len() == i,
                forall|k: int| 0 <= k < i ==> complete(#[trigger] files@[k].tag),
                forall|k: int|
                    0 <= k < i ==> (#[trigger] tracks@[k])@ == described(
                        files@[k].path@,
                        files@[k].tag,
                    ),
                valid_tracks(views(tracks@)),
                !overflow ==> total as int == samples_before(described_all(files@), i as int),
                overflow ==> samples_before(described_all(files@), i as int) > u64::MAX,
            decreases files@.len() - i,
        {
            let file = &files[i];
            match Track::from_path(file.path.clone(), &file.tag) {
                Ok(track) => {
                    let samples = track.samples();
                    let _rate = track.sample_rate();
                    let _channels = track.channels();
                    proof {
                        lemma_samples_before_monotonic(described_all(files@), 0, i as int);
                        assert(views(tracks@.push(track)) =~= views(tracks@).push(track@));
                    }
                    if !overflow {
                        match total.checked_add(samples) {
                            Some(sum) => {
                                total = sum;
                            },
                            None => {
                                overflow = true;
                            },
                        }
                    }
                    tracks.push(track);
                },
                Err(e) => {
                    assert(first_incomplete(files@, i as int));
                    assert forall|j: int| #[trigger] first_incomplete(files@, j) implies j
                        == i by {
                        if j < i {
                            assert(complete(files@[j].tag));
                        } else if i < j {
                            assert(complete(files@[i as int].tag));
                        }
                    }
                    return Err(TrackListError::Metadata(e));
                },
            }
            i += 1;
        }
        assert(views(tracks@) =~= described_all(files@));
        assert(all_complete(files@));
        assert forall|j: int| !#[trigger] first_incomplete(files@, j) by {
            if 0 <= j < files@.len() {
                assert(complete(files@[j].tag));
            }
        }
        if overflow {
            return Err(TrackListError::TooLong);
        }
        if !Self::share_format(&tracks) {
            return Err(TrackListError::InconsistentFormat);
        }
        Ok(TrackList { tracks, total_samples: total })
    }

    /// Whether all tracks have the format of the first.
    fn share_format(tracks: &Vec<Track>) -> (same: bool)
        ensures
            same == same_format(views(tracks@)),
    {
        let mut i: usize = 1;
        while i < tracks.len()
            invariant
                1 <= i,
                forall|k: int|
                    0 <= k < i && k < tracks@.len() ==> {
                        &&& (#[trigger] views(tracks@)[k]).channels == views(tracks@)[0].channels
                        &&& views(tracks@)[k].sample_rate == views(tracks@)[0].sample_rate
                    },
            decreases tracks@.len() - i,
        {
            if tracks[i].channels() != tracks[0].channels() || tracks[i].sample_rate()
                != tracks[0].sample_rate() {
                assert(views(tracks@)[i as int] == tracks@[i as int]@);
                return false;
            }
            i += 1;
        }
        true
    }

    /// Appends one track.
    pub fn add_track(&mut self, track: Track)
        requires
            samples_in(old(self)@) + track@.samples <= u64::MAX,
        ensures
            final(self)@ == old(self)@.push(track@),
    {
        let mut taken = TrackList::unsafe_new();
        core::mem::swap(self, &mut taken);
        proof {
            use_type_invariant(&taken);
        }
        let TrackList { tracks, total_samples } = taken;
        let mut tracks = tracks;
        let samples = track.samples();
        let _rate = track.sample_rate();
        let _channels = track.channels();
        proof {
            let before = views(tracks@);
            let after = before.push(track@);
            assert(views(tracks@.push(track)) =~= after);
            lemma_samples_before_prefix(after, before, before.len() as int);
        }
        tracks.push(track);
        *self = TrackList { tracks, total_samples: total_samples + samples };
    }

    /// Appends a run of tracks, in their order.
    pub fn add_tracks(&mut self, tracks: Vec<Track>)
        requires
            samples_in(old(self)@) + samples_in(views(tracks@)) <= u64::MAX,
        ensures
            final(self)@ == old(self)@ + views(tracks@),
    {
        let mut taken = TrackList::unsafe_new();
        core::mem::swap(self, &mut taken);
        proof {
            use_type_invariant(&taken);
        }
        let TrackList { tracks: held, total_samples } = taken;
        let mut held = held;
        let mut tracks = tracks;
        let ghost added = views(tracks@);
        let ghost before = views(held@);
        let mut total = total_samples;
        let mut i: usize = 0;
        while i < tracks.len()
            invariant
                i <= tracks@.len(),
                views(tracks@) == added,
                total as int == samples_in(before) + samples_before(added, i as int),
                samples_in(before) + samples_in(added) <= u64::MAX,
                forall|k: int|
                    0 <= k < i ==> {
                        &&& (#[trigger] added[k]).samples > 0
                        &&& added[k].channels > 0
                        &&& added[k].sample_rate > 0
                    },
            decreases tracks@.len() - i,
        {
            let samples = tracks[i].samples();
            let _rate = tracks[i].sample_rate();
            let _channels = tracks[i].channels();
            proof {
                assert(added[i as int] == tracks@[i as int]@);
                lemma_samples_before_monotonic(added, i + 1, added.len() as int);
            }
            total = total + samples;
            i += 1;
        }
        proof {
            assert(views(held@ + tracks@) =~= before + added);
            lemma_total_samples_concat(before, added, added.len() as int);
        }
        held.append(&mut tracks);
        *self = TrackList { tracks: held, total_samples: total };
    }

    /// The tracks, in playing order.
    pub fn tracks(&self) -> (r: &Vec<Track>)
        ensures
            views(r@) == self@,
            r@.len() == self@.len(),
            forall|k: int| 0 <= k < r@.len() ==> (#[trigger] r@[k])@ == self@[k],
            valid_tracks(self@),
    {
        proof {
            use_type_invariant(self);
        }
        &self.tracks
    }

    /// The frames of all tracks together.
    pub fn total_samples(&self) -> (r: u64)
        ensures
            r as int == samples_in(self@),
    {
        proof {
            use_type_invariant(self);
        }
        self.total_samples
    }

    /// The index of the track that is heard at frame `current_sample`.
    ///
    /// A position on a boundary belongs to the track that starts there. Past
    /// the end of the list the last track is named, and 0 where the list has
    /// no track.
    pub fn find_playing(&self, current_sample: u64) -> (found: usize)
        ensures
            found as int == playing_index(self@, current_sample as int),
    {
        proof {
            use_type_invariant(self);
        }
        let mut total: u64 = 0;
        let mut i: usize = 0;
        while i < self.tracks.len()
            invariant
                i <= self.tracks@.len(),
                self@ == views(self.tracks@),
                self.total_samples as int == samples_in(self@),
                total as int == samples_before(self@, i as int),
                forall|k: int|
                    0 <= k < i ==> #[trigger] samples_before(self@, k + 1) <= current_sample,
            decreases self.tracks@.len() - i,
        {
            let samples = self.tracks[i].samples();
            proof {
                lemma_samples_before_monotonic(self@, i + 1, self@.len() as int);
            }
            total = total + samples;
            if total > current_sample {
                proof {
                    lemma_playing_index_is(self@, current_sample as int, i as int);
                }
                return i;
            }
            i += 1;
        }
        proof {
            assert forall|j: int| !is_playing(self@, current_sample as int, j) by {
                if 0 <= j < self@.len() {
                    assert(samples_before(self@, j + 1) <= current_sample);
                }
            }
        }
        if self.tracks.len() == 0 {
            0
        } else {
            self.tracks.len() - 1
        }
    }

    /// The frame at which track `index` starts: the frames of the tracks
    /// before it.
    pub fn get_start_point(&self, index: usize) -> (start: u64)
        requires
            index < self@.len(),
        ensures
            start as int == samples_before(self@, index as int),
    {
        proof {
            use_type_invariant(self);
        }
        let mut total: u64 = 0;
        let mut i: usize = 0;
        while i < index
            invariant
                i <= index < self.tracks@.len(),
                self@ == views(self.tracks@),
                self.total_samples as int == samples_in(self@),
                total as int == samples_before(self@, i as int),
            decreases index - i,
        {
            let samples = self.tracks[i].samples();
            proof {
                lemma_samples_before_monotonic(self@, i + 1, self@.len() as int);
            }
            total = total + samples;
            i += 1;
        }
        total
    }

    /// The frame at which track `index` ends, which is where the next starts.
    pub fn get_end_point(&self, index: usize) -> (end: u64)
        requires
            index < self@.len(),
        ensures
            end as int == samples_before(self@, index + 1),
            end as int == samples_before(self@, index as int) + self@[index as int].samples,
    {
        proof {
            use_type_invariant(self);
            lemma_samples_before_monotonic(self@, index + 1, self@.len() as int);
        }
        self.get_start_point(index) + self.get_sample_count(index)
    }

    /// The frames of track `index`.
    pub fn get_sample_count(&self, index: usize) -> (count: u64)
        requires
            index < self@.len(),
        ensures
            count == self@[index as int].samples,
    {
        self.tracks[index].samples()
    }

    /// The format of the list: that of its first track, where every track
    /// shares it.
    pub fn audio_params(&self) -> (r: Result<AudioParams, TrackListError>)
        ensures
            self@.len() == 0 ==> r == Err::<AudioParams, TrackListError>(TrackListError::Empty),
            self@.len() > 0 && !same_format(self@) ==> r == Err::<AudioParams, TrackListError>(
                TrackListError::InconsistentFormat,
            ),
            self@.len() > 0 && same_format(self@) ==> r == Ok::<AudioParams, TrackListError>(
                AudioParams {
                    channel_count: self@[0].channels as usize,
                    sample_rate: self@[0].sample_rate as usize,
                },
            ),
            r matches Ok(p) ==> p.channel_count > 0 && p.sample_rate > 0,
    {
        if self.tracks.len() == 0 {
            return Err(TrackListError::Empty);
        }
        if !Self::share_format(&self.tracks) {
            return Err(TrackListError::InconsistentFormat);
        }
        let first = &self.tracks[0];
        Ok(
            AudioParams {
                channel_count: first.channels() as usize,
                sample_rate: first.sample_rate() as usize,
            },
        )
    }
}

impl Clone for TrackList {
    fn clone(&self) -> (list: Self)
        ensures
            list@ == self@,
    {
        proof {
            use_type_invariant(self);
        }
        let mut tracks: Vec<Track> = Vec::new();
        let mut i: usize = 0;
        while i < self.tracks.len()
            invariant
                i <= self.tracks@.len(),
                tracks@.len() == i,
                forall|k: int| 0 <= k < i ==> (#[trigger] tracks@[k])@ == self.tracks@[k]@,
            decreases self.tracks@.len() - i,
        {
            tracks.push(self.tracks[i].clone());
            i += 1;
        }
        assert(views(tracks@) =~= views(self.tracks@));
        TrackList { tracks, total_samples: self.total_samples }
    }
}

impl Default for TrackList {
    fn default() -> (list: Self)
        ensures
            list@ == Seq::<TrackView>::empty(),
    {
        TrackList::unsafe_new()
    }
}

} // verus!
