//! One audio file of the playlist, as its stream header and tags describe it.

use vstd::prelude::*;

verus! {

/// The stream header of a FLAC file, as plain numbers.
#[derive(Clone, Copy, Debug, PartialEq, Eq)]
pub struct StreamInfo {
    /// Frames per channel in the whole stream; zero where the encoder did not say.
    pub total_samples: u64,
    pub sample_rate: u32,
    pub num_channels: u8,
    pub max_block_size: u16,
}

/// The comments of a FLAC file that a track is built from. A key that the file
/// lacks is `None`; a key may also be present with no value at all.
#[derive(Clone, Debug, PartialEq, Eq)]
pub struct VorbisComments {
    pub title: Option<Vec<String>>,
    pub album: Option<Vec<String>>,
    pub album_artist: Option<Vec<String>>,
    pub track: Option<u32>,
}

/// What was read from one FLAC file: the stream header and the comment block,
/// each absent where the file has none.
#[derive(Clone, Debug, PartialEq, Eq)]
pub struct FlacTag {
    pub stream_info: Option<StreamInfo>,
    pub comments: Option<VorbisComments>,
}

/// Why a file cannot become a track. Each variant carries the file's path.
#[derive(Clone, Debug, PartialEq, Eq)]
pub enum TrackMetadataError {
    /// No stream header, or one with no frames, no channels or no sample rate.
    InvalidStreamInfo { path: String },
    MissingComment { path: String },
    MissingAlbum { path: String },
    MissingTitle { path: String },
    MissingAlbumArtist { path: String },
    MissingTrack { path: String },
}

/// The mathematical value of a [`Track`].
pub struct TrackView {
    pub path: Seq<char>,
    pub sample_rate: u32,
    pub samples: u64,
    pub channels: u8,
    pub album: Seq<char>,
    pub album_artist: Seq<char>,
    pub title: Seq<char>,
    pub track: u32,
}

/// The first value stored under a comment key, if the key has one.
pub open spec fn first_value(values: Option<Vec<String>>) -> Option<Seq<char>> {
    match values {
        Some(v) => if v@.len() > 0 {
            Some(v@[0]@)
        } else {
            None
        },
        None => None,
    }
}

/// A stream header that a track can be built from: it is there, and it has
/// frames, channels and a sample rate.
pub open spec fn usable_stream_info(info: Option<StreamInfo>) -> bool {
    match info {
        Some(si) => si.total_samples > 0 && si.num_channels > 0 && si.sample_rate > 0,
        None => false,
    }
}

/// The tag holds everything a track needs.
pub open spec fn complete(tag: FlacTag) -> bool {
    &&& usable_stream_info(tag.stream_info)
    &&& tag.comments matches Some(c)
    &&& first_value(c.title) is Some
    &&& first_value(c.album) is Some
    &&& first_value(c.album_artist) is Some
    &&& c.track is Some
}

/// The track that a complete tag describes.
pub open spec fn described(path: Seq<char>, tag: FlacTag) -> TrackView
    recommends
        complete(tag),
{
    let si = tag.stream_info->0;
    let c = tag.comments->0;
    TrackView {
        path,
        sample_rate: si.sample_rate,
        samples: si.total_samples,
        channels: si.num_channels,
        album: first_value(c.album)->0,
        album_artist: first_value(c.album_artist)->0,
        title: first_value(c.title)->0,
        track: c.track->0,
    }
}

/// `e` is the error that an incomplete tag earns the file at `path`: the first
/// of the checks that fails names it, in the order stream header, comment
/// block, title, album, album artist, track number.
pub open spec fn rejection(path: Seq<char>, tag: FlacTag, e: TrackMetadataError) -> bool {
    &&& e.path_view() == path
    &&& if !usable_stream_info(tag.stream_info) {
        e is InvalidStreamInfo
    } else if tag.comments is None {
        e is MissingComment
    } else if first_value(tag.comments->0.title) is None {
        e is MissingTitle
    } else if first_value(tag.comments->0.album) is None {
        e is MissingAlbum
    } else if first_value(tag.comments->0.album_artist) is None {
        e is MissingAlbumArtist
    } else if tag.comments->0.track is None {
        e is MissingTrack
    } else {
        false
    }
}

/// One file of the playlist. Immutable once built; it always has at least one
/// frame, one channel and a positive sample rate.
#[derive(Debug, PartialEq)]
pub struct Track {
    path: String,
    sample_rate: u32,
    samples: u64,
    channels: u8,
    album: String,
    album_artist: String,
    title: String,
    track: u32,
}

impl View for Track {
    type V = TrackView;

    closed spec fn view(&self) -> TrackView {
        TrackView {
            path: self.path@,
            sample_rate: self.sample_rate,
            samples: self.samples,
            channels: self.channels,
            album: self.album@,
            album_artist: self.album_artist@,
            title: self.title@,
            track: self.track,
        }
    }
}

impl Clone for Track {
    fn clone(&self) -> (r: Self)
        ensures
            r@ == self@,
    {
        proof {
            use_type_invariant(self);
        }
        Track {
            path: self.path.clone(),
            sample_rate: self.sample_rate,
            samples: self.samples,
            channels: self.channels,
            album: self.album.clone(),
            album_artist: self.album_artist.clone(),
            title: self.title.clone(),
            track: self.track,
        }
    }
}

fn first_string(values: &Option<Vec<String>>) -> (r: Option<String>)
    ensures
        r is Some <==> first_value(*values) is Some,
        r matches Some(s) ==> s@ == first_value(*values)->0,
{
    match values {
        Some(v) => {
            if v.len() > 0 {
                Some(v[0].clone())
            } else {
                None
            }
        },
        None => None,
    }
}

impl Track {
    #[verifier::type_invariant]
    spec fn valid(self) -> bool {
        self.samples > 0 && self.channels > 0 && self.sample_rate > 0
    }

    /// Builds the track of the file at `path` from what was read out of it.
    ///
    /// The checks run in a fixed order, and the first that fails names the
    /// error: the stream header, the comment block, then title, album, album
    /// artist and track number.
    pub fn from_path(path: String, tag: &FlacTag) -> (r: Result<Track, TrackMetadataError>)
        ensures
            complete(*tag) <==> r is Ok,
            r matches Ok(t) ==> t@ == described(path@, *tag),
            r matches Err(e) ==> rejection(path@, *tag, e),
    {
        let si = match tag.stream_info {
            Some(si) => si,
            None => {
                return Err(TrackMetadataError::InvalidStreamInfo { path });
            },
        };
        if si.total_samples == 0 || si.num_channels == 0 || si.sample_rate == 0 {
            return Err(TrackMetadataError::InvalidStreamInfo { path });
        }
        let comments = match &tag.comments {
            Some(c) => c,
            None => {
                return Err(TrackMetadataError::MissingComment { path });
            },
        };
        let title = match first_string(&comments.title) {
            Some(t) => t,
            None => {
                return Err(TrackMetadataError::MissingTitle { path });
            },
        };
        let album = match first_string(&comments.album) {
            Some(a) => a,
            None => {
                return Err(TrackMetadataError::MissingAlbum { path });
            },
        };
        let album_artist = match first_string(&comments.album_artist) {
            Some(a) => a,
            None => {
                return Err(TrackMetadataError::MissingAlbumArtist { path });
            },
        };
        let track = match comments.track {
            Some(t) => t,
            None => {
                return Err(TrackMetadataError::MissingTrack { path });
            },
        };
        Ok(
            Track {
                path,
                sample_rate: si.sample_rate,
                samples: si.total_samples,
                channels: si.num_channels,
                album,
                album_artist,
                title,
                track,
            },
        )
    }

    /// Where the file lies.
    pub fn path(&self) -> (r: &String)
        ensures
            r@ == self@.path,
    {
        &self.path
    }

    /// Frames per second.
    pub fn sample_rate(&self) -> (r: u32)
        ensures
            r == self@.sample_rate,
            r > 0,
    {
        proof {
            use_type_invariant(self);
        }
        self.sample_rate
    }

    /// Frames per channel in the whole track.
    pub fn samples(&self) -> (r: u64)
        ensures
            r == self@.samples,
            r > 0,
    {
        proof {
            use_type_invariant(self);
        }
        self.samples
    }

    /// The number of interleaved channels.
    pub fn channels(&self) -> (r: u8)
        ensures
            r == self@.channels,
            r > 0,
    {
        proof {
            use_type_invariant(self);
        }
        self.channels
    }

    pub fn album(&self) -> (r: &String)
        ensures
            r@ == self@.album,
    {
        &self.album
    }

    pub fn album_artist(&self) -> (r: &String)
        ensures
            r@ == self@.album_artist,
    {
        &self.album_artist
    }

    pub fn title(&self) -> (r: &String)
        ensures
            r@ == self@.title,
    {
        &self.title
    }

    /// The track's number on its album.
    pub fn track(&self) -> (r: u32)
        ensures
            r == self@.track,
    {
        self.track
    }
}

impl TrackMetadataError {
    /// The path of the file that the error is about.
    pub open spec fn path_view(&self) -> Seq<char> {
        match self {
            TrackMetadataError::InvalidStreamInfo { path } => path@,
            TrackMetadataError::MissingComment { path } => path@,
            TrackMetadataError::MissingAlbum { path } => path@,
            TrackMetadataError::MissingTitle { path } => path@,
            TrackMetadataError::MissingAlbumArtist { path } => path@,
            TrackMetadataError::MissingTrack { path } => path@,
        }
    }

    /// The path of the file that the error is about.
    pub fn path(&self) -> (r: &String)
        ensures
            r@ == self.path_view(),
    {
        match self {
            TrackMetadataError::InvalidStreamInfo { path } => path,
            TrackMetadataError::MissingComment { path } => path,
            TrackMetadataError::MissingAlbum { path } => path,
            TrackMetadataError::MissingTitle { path } => path,
            TrackMetadataError::MissingAlbumArtist { path } => path,
            TrackMetadataError::MissingTrack { path } => path,
        }
    }
}

} // verus!
