use wigglyair::track::{FlacTag, StreamInfo, Track, TrackMetadataError, VorbisComments};
use wigglyair::track_list::{
    AudioParams, FlacFile, OutputDeviceParameters, TrackList, TrackListError,
};

fn comments(title: &str) -> VorbisComments {
    VorbisComments {
        title: Some(vec![title.to_string(), "other title".to_string()]),
        album: Some(vec!["Album".to_string()]),
        album_artist: Some(vec!["Artist".to_string()]),
        track: Some(3),
    }
}

fn tag(samples: u64, rate: u32, channels: u8) -> FlacTag {
    FlacTag {
        stream_info: Some(StreamInfo {
            total_samples: samples,
            sample_rate: rate,
            num_channels: channels,
            max_block_size: 4096,
        }),
        comments: Some(comments("Title")),
    }
}

fn track(path: &str, samples: u64, rate: u32, channels: u8) -> Track {
    Track::from_path(path.to_string(), &tag(samples, rate, channels)).unwrap()
}

fn list_of(lengths: &[u64]) -> TrackList {
    let mut list = TrackList::unsafe_new();
    for (i, n) in lengths.iter().enumerate() {
        list.add_track(track(&format!("{}.flac", i), *n, 44100, 2));
    }
    list
}

#[test]
fn track_from_path_copies_the_fields() {
    let t = track("/music/a.flac", 1000, 48000, 2);
    assert_eq!(t.path(), "/music/a.flac");
    assert_eq!(t.samples(), 1000);
    assert_eq!(t.sample_rate(), 48000);
    assert_eq!(t.channels(), 2);
    assert_eq!(t.title(), "Title");
    assert_eq!(t.album(), "Album");
    assert_eq!(t.album_artist(), "Artist");
    assert_eq!(t.track(), 3);
    let copy = t.clone();
    assert_eq!(copy, t);
}

#[test]
fn track_from_path_needs_a_stream_header() {
    let path = "x.flac".to_string();
    let mut missing = tag(1, 1, 1);
    missing.stream_info = None;
    assert_eq!(
        Track::from_path(path.clone(), &missing),
        Err(TrackMetadataError::InvalidStreamInfo { path: path.clone() })
    );
    for broken in [tag(0, 44100, 2), tag(10, 0, 2), tag(10, 44100, 0)] {
        assert_eq!(
            Track::from_path(path.clone(), &broken),
            Err(TrackMetadataError::InvalidStreamInfo { path: path.clone() })
        );
    }
}

#[test]
fn track_from_path_names_the_first_missing_field() {
    let path = "x.flac".to_string();
    let mut t = tag(10, 44100, 2);
    t.comments = None;
    assert_eq!(
        Track::from_path(path.clone(), &t),
        Err(TrackMetadataError::MissingComment { path: path.clone() })
    );

    let mut c = comments("T");
    c.track = None;
    t.comments = Some(c.clone());
    assert_eq!(
        Track::from_path(path.clone(), &t),
        Err(TrackMetadataError::MissingTrack { path: path.clone() })
    );
    c.album_artist = Some(Vec::new());
    t.comments = Some(c.clone());
    assert_eq!(
        Track::from_path(path.clone(), &t),
        Err(TrackMetadataError::MissingAlbumArtist { path: path.clone() })
    );
    c.album = None;
    t.comments = Some(c.clone());
    assert_eq!(
        Track::from_path(path.clone(), &t),
        Err(TrackMetadataError::MissingAlbum { path: path.clone() })
    );
    c.title = None;
    t.comments = Some(c.clone());
    let error = Track::from_path(path.clone(), &t).unwrap_err();
    assert_eq!(error, TrackMetadataError::MissingTitle { path: path.clone() });
    assert_eq!(error.path(), "x.flac");
    t.stream_info = None;
    assert_eq!(
        Track::from_path(path.clone(), &t),
        Err(TrackMetadataError::InvalidStreamInfo { path })
    );
}

#[test]
fn track_list_starts_empty() {
    let list = TrackList::unsafe_new();
    assert_eq!(list.tracks().len(), 0);
    assert_eq!(list.total_samples(), 0);
    assert_eq!(list.find_playing(0), 0);
    assert_eq!(list.find_playing(99), 0);
    assert_eq!(TrackList::default().total_samples(), 0);
}

#[test]
fn track_list_totals_follow_every_addition() {
    let mut list = TrackList::unsafe_new();
    list.add_track(track("a", 10, 44100, 2));
    assert_eq!(list.total_samples(), 10);
    list.add_tracks(vec![track("b", 20, 44100, 2), track("c", 5, 44100, 2)]);
    assert_eq!(list.total_samples(), 35);
    list.add_tracks(Vec::new());
    assert_eq!(list.total_samples(), 35);
    list.add_track(track("d", 7, 48000, 1));
    assert_eq!(list.total_samples(), 42);
    let sum: u64 = list.tracks().iter().map(|t| t.samples()).sum();
    assert_eq!(sum, 42);
    let paths: Vec<&str> = list.tracks().iter().map(|t| t.path().as_str()).collect();
    assert_eq!(paths, vec!["a", "b", "c", "d"]);
}

#[test]
fn track_list_total_may_reach_the_limit() {
    let mut list = TrackList::unsafe_new();
    list.add_track(track("a", u64::MAX - 1, 44100, 2));
    list.add_track(track("b", 1, 44100, 2));
    assert_eq!(list.total_samples(), u64::MAX);
    assert_eq!(list.find_playing(u64::MAX - 2), 0);
    assert_eq!(list.find_playing(u64::MAX - 1), 1);
    assert_eq!(list.find_playing(u64::MAX), 1);
    assert_eq!(list.get_end_point(1), u64::MAX);
}

#[test]
fn find_playing_names_the_track_at_a_position() {
    let list = list_of(&[10, 20, 5]);
    assert_eq!(list.find_playing(0), 0);
    assert_eq!(list.find_playing(9), 0);
    assert_eq!(list.find_playing(10), 1);
    assert_eq!(list.find_playing(29), 1);
    assert_eq!(list.find_playing(30), 2);
    assert_eq!(list.find_playing(34), 2);
    assert_eq!(list.find_playing(35), 2);
    assert_eq!(list.find_playing(u64::MAX), 2);
}

#[test]
fn find_playing_is_monotonic() {
    let list = list_of(&[3, 1, 4, 1, 5, 9, 2, 6]);
    let mut last = 0;
    for s in 0..40 {
        let now = list.find_playing(s);
        assert!(last <= now);
        last = now;
    }
    assert_eq!(last, 7);
}

#[test]
fn find_playing_switches_on_the_boundary() {
    let lengths = [3u64, 1, 4, 1, 5];
    let list = list_of(&lengths);
    let mut end = 0;
    for (i, n) in lengths.iter().enumerate() {
        end += n;
        assert_eq!(list.find_playing(end - 1), i);
        if i + 1 < lengths.len() {
            assert_eq!(list.find_playing(end), i + 1);
        }
    }
}

#[test]
fn start_and_end_points() {
    let list = list_of(&[10, 20, 5]);
    assert_eq!(list.get_start_point(0), 0);
    assert_eq!(list.get_start_point(1), 10);
    assert_eq!(list.get_start_point(2), 30);
    assert_eq!(list.get_end_point(0), 10);
    assert_eq!(list.get_end_point(1), 30);
    assert_eq!(list.get_end_point(2), 35);
    assert_eq!(list.get_sample_count(0), 10);
    assert_eq!(list.get_sample_count(1), 20);
    assert_eq!(list.get_sample_count(2), 5);
}

#[test]
fn audio_params_of_a_uniform_list() {
    let list = list_of(&[10, 20]);
    assert_eq!(
        list.audio_params(),
        Ok(AudioParams { channel_count: 2, sample_rate: 44100 })
    );
}

#[test]
fn audio_params_refuses_an_empty_list() {
    assert_eq!(TrackList::unsafe_new().audio_params(), Err(TrackListError::Empty));
}

#[test]
fn audio_params_refuses_mixed_formats() {
    let mut rates = TrackList::unsafe_new();
    rates.add_track(track("a", 10, 44100, 2));
    rates.add_track(track("b", 10, 48000, 2));
    assert_eq!(rates.audio_params(), Err(TrackListError::InconsistentFormat));
    let mut channels = TrackList::unsafe_new();
    channels.add_track(track("a", 10, 44100, 2));
    channels.add_track(track("b", 10, 44100, 2));
    channels.add_track(track("c", 10, 44100, 1));
    assert_eq!(channels.audio_params(), Err(TrackListError::InconsistentFormat));
}

#[test]
fn audio_params_derive_the_device_parameters() {
    let params = AudioParams { channel_count: 2, sample_rate: 44100 };
    assert_eq!(params.audio_buffer_frames(), 0);
    assert_eq!(params.channel_sample_count(), 4410);
    assert_eq!(
        params.output_device_parameters(),
        OutputDeviceParameters { sample_rate: 44100, channels_count: 2, channel_sample_count: 4410 }
    );
    let odd = AudioParams { channel_count: 1, sample_rate: 22055 };
    assert_eq!(odd.channel_sample_count(), 2205);
}

#[test]
fn from_files_builds_the_list_in_order() {
    let files = vec![
        FlacFile { path: "1.flac".to_string(), tag: tag(100, 44100, 2) },
        FlacFile { path: "2.flac".to_string(), tag: tag(200, 44100, 2) },
    ];
    let list = TrackList::unsafe_from_files(files).unwrap();
    assert_eq!(list.total_samples(), 300);
    assert_eq!(list.tracks().len(), 2);
    assert_eq!(list.tracks()[0].path(), "1.flac");
    assert_eq!(list.tracks()[1].samples(), 200);
    let empty = TrackList::unsafe_from_files(Vec::new()).unwrap();
    assert_eq!(empty.tracks().len(), 0);
}

#[test]
fn from_files_refuses_mixed_sample_rates() {
    let files = vec![
        FlacFile { path: "a.flac".to_string(), tag: tag(100, 44100, 2) },
        FlacFile { path: "b.flac".to_string(), tag: tag(100, 48000, 2) },
    ];
    assert_eq!(
        TrackList::unsafe_from_files(files).err(),
        Some(TrackListError::InconsistentFormat)
    );
}

#[test]
fn from_files_reports_the_first_bad_file() {
    let mut no_title = tag(100, 48000, 2);
    no_title.comments = Some(VorbisComments {
        title: None,
        album: None,
        album_artist: None,
        track: None,
    });
    let mut no_comments = tag(100, 44100, 2);
    no_comments.comments = None;
    let files = vec![
        FlacFile { path: "a.flac".to_string(), tag: tag(u64::MAX, 44100, 2) },
        FlacFile { path: "b.flac".to_string(), tag: no_title },
        FlacFile { path: "c.flac".to_string(), tag: no_comments },
    ];
    assert_eq!(
        TrackList::unsafe_from_files(files).err(),
        Some(TrackListError::Metadata(TrackMetadataError::MissingTitle {
            path: "b.flac".to_string()
        }))
    );
}

#[test]
fn from_files_refuses_what_cannot_be_counted() {
    let files = vec![
        FlacFile { path: "a.flac".to_string(), tag: tag(u64::MAX, 44100, 2) },
        FlacFile { path: "b.flac".to_string(), tag: tag(1, 48000, 2) },
    ];
    assert_eq!(TrackList::unsafe_from_files(files).err(), Some(TrackListError::TooLong));
}
