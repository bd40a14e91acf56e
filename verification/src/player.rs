//! The player: the cells that describe a playback session, and the callback
//! that moves it on.

use crate::callback::{quiet_report, rendered, silent, CallbackReport, OutputCallback};
use crate::cells::{frames_in, frames_of, wrapping_sum, CurrentSample, PlayState};
use crate::queue::SampleBuffer;
use crate::skip::SkipSecs;
use crate::track_list::{
    playing_index, same_format, samples_in, AudioParams, TrackList, TrackListError,
};
use crate::volume::Volume;
use crossbeam::channel::Receiver;
use vstd::prelude::*;

verus! {

/// A playback session: the playlist, its format, and the cells through which
/// the session is watched and steered.
#[derive(Debug)]
pub struct Player {
    /// Frames handed to the device so far.
    pub current_sample: CurrentSample,
    /// Frames in the whole playlist.
    pub total_samples: u64,
    pub state: PlayState,
    pub volume: Volume,
    pub track_list: TrackList,
    /// The index of the track being heard.
    pub current_track: usize,
    pub audio_params: AudioParams,
    pub skip_secs: SkipSecs,
}

/// The session that starts on `track_list`: at the first frame of the first
/// track, at full volume.
pub open spec fn fresh(player: Player, track_list: TrackList, playing: bool, skip: u64) -> bool {
    &&& player.track_list == track_list
    &&& player.current_sample@ == 0
    &&& player.current_track == 0
    &&& player.volume@ == 100
    &&& player.state@ == playing
    &&& player.skip_secs@ == skip
    &&& player.total_samples as int == samples_in(track_list@)
    &&& player.audio_params == (AudioParams {
        channel_count: track_list@[0].channels as usize,
        sample_rate: track_list@[0].sample_rate as usize,
    })
}

impl Player {
    /// A session on `track_list` that plays from the start.
    ///
    /// Fails as [`TrackList::audio_params`] does where the list has no
    /// format.
    pub fn new(track_list: TrackList) -> (r: Result<Self, TrackListError>)
        ensures
            track_list@.len() == 0 ==> r is Err && r->Err_0 == TrackListError::Empty,
            track_list@.len() > 0 && !same_format(track_list@) ==> r is Err && r->Err_0
                == TrackListError::InconsistentFormat,
            track_list@.len() > 0 && same_format(track_list@) ==> r is Ok && fresh(
                r->Ok_0,
                track_list,
                true,
                0,
            ),
    {
        Self::with_state(track_list, PlayState::with_state(true), SkipSecs::default())
    }

    /// A session on `track_list` that starts in `state` and skips what
    /// `skip_secs` says.
    ///
    /// Fails as [`TrackList::audio_params`] does where the list has no
    /// format.
    pub fn with_state(track_list: TrackList, state: PlayState, skip_secs: SkipSecs) -> (r: Result<
        Self,
        TrackListError,
    >)
        ensures
            track_list@.len() == 0 ==> r is Err && r->Err_0 == TrackListError::Empty,
            track_list@.len() > 0 && !same_format(track_list@) ==> r is Err && r->Err_0
                == TrackListError::InconsistentFormat,
            track_list@.len() > 0 && same_format(track_list@) ==> r is Ok && fresh(
                r->Ok_0,
                track_list,
                state@,
                skip_secs@,
            ),
    {
        let audio_params = match track_list.audio_params() {
            Ok(params) => params,
            Err(e) => {
                return Err(e);
            },
        };
        Ok(
            Player {
                current_sample: CurrentSample::default(),
                volume: Volume::default(),
                state,
                total_samples: track_list.total_samples(),
                current_track: 0,
                audio_params,
                track_list,
                skip_secs,
            },
        )
    }

    /// The output callback: fills the device's slice `data` and moves the
    /// position on.
    ///
    /// While the session is paused, or once the queue was found closed, the
    /// slice is filled with `silence` and nothing moves. Otherwise samples
    /// are taken from the queue as [`OutputCallback::render`] does, scaled
    /// at the volume by `scale`; the position moves on by the whole frames
    /// that went to the device, and the track that was playing at the
    /// position from before becomes the current one.
    pub fn callback<T: Copy, F: Fn(T, u8) -> T>(
        &mut self,
        local: &mut OutputCallback<T>,
        queue: &Receiver<SampleBuffer<T>>,
        data: &mut [T],
        silence: T,
        scale: &F,
    ) -> (report: CallbackReport)
        requires
            forall|s: T, v: u8| scale.requires((s, v)),
        ensures
            final(data)@.len() == old(data)@.len(),
            !old(self).state@ || old(local).finished() ==> {
                &&& *final(self) == *old(self)
                &&& *final(local) == *old(local)
                &&& silent(final(data)@, silence)
                &&& report == quiet_report()
            },
            old(self).state@ && !old(local).finished() ==> {
                &&& rendered(
                    *old(local),
                    *final(local),
                    old(self).volume@,
                    final(data)@,
                    silence,
                    scale,
                    report,
                )
                &&& *final(self) == (Player {
                    current_sample: final(self).current_sample,
                    current_track: final(self).current_track,
                    ..*old(self)
                })
                &&& final(self).current_sample@ == wrapping_sum(
                    old(self).current_sample@,
                    frames_in(
                        report.emitted as int,
                        old(self).audio_params.channel_count as int,
                    ) as u64,
                )
                &&& final(self).current_track as int == playing_index(
                    old(self).track_list@,
                    old(self).current_sample@ as int,
                )
            },
    {
        let paused = self.state.is_paused();
        let idle = paused || local.is_done();
        let volume = self.volume.get();
        let report = local.render(paused, volume, queue, data, silence, scale);
        if idle {
            return report;
        }
        let frames = frames_of(report.emitted, self.audio_params.channel_count);
        let previous = self.current_sample.get_and_advance(frames as u64);
        self.current_track = self.track_list.find_playing(previous);
        report
    }
}

} // verus!
