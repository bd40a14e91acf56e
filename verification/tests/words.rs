use wigglyair::display::{
    decimal, display_album_header, display_track, duration_to_human_readable, padded,
    samples_to_duration_string, track_list_to_rows, volume_modifier, ListRow,
};
use wigglyair::track_list::TrackList;
use wigglyair::log::{Direction, LogEntry};
use wigglyair::search::{chars_of, find_first, fuzzy_match_string, match_words, split_words};
use wigglyair::track::{FlacTag, StreamInfo, Track, VorbisComments};

fn chars(s: &str) -> Vec<char> {
    s.chars().collect()
}

fn entry(msg: &str) -> LogEntry {
    LogEntry { time: "2023-08-09T23:54:27Z".to_string(), msg: msg.to_string() }
}

fn track(number: u32, title: &str, artist: &str, album: &str) -> Track {
    let tag = FlacTag {
        stream_info: Some(StreamInfo {
            total_samples: 1,
            sample_rate: 44100,
            num_channels: 2,
            max_block_size: 4096,
        }),
        comments: Some(VorbisComments {
            title: Some(vec![title.to_string()]),
            album: Some(vec![album.to_string()]),
            album_artist: Some(vec![artist.to_string()]),
            track: Some(number),
        }),
    };
    Track::from_path("t.flac".to_string(), &tag).unwrap()
}

#[test]
fn chars_of_lists_the_characters() {
    assert_eq!(chars_of("héllo"), vec!['h', 'é', 'l', 'l', 'o']);
    assert!(chars_of("").is_empty());
}

#[test]
fn find_first_finds_the_first_place() {
    assert_eq!(find_first(&chars("abcabc"), &chars("bc")), Some(1));
    assert_eq!(find_first(&chars("abcabc"), &chars("abcabc")), Some(0));
    assert_eq!(find_first(&chars("abcabc"), &chars("c")), Some(2));
    assert_eq!(find_first(&chars("abcabc"), &chars("")), Some(0));
    assert_eq!(find_first(&chars(""), &chars("")), Some(0));
    assert_eq!(find_first(&chars("abcabc"), &chars("cb")), None);
    assert_eq!(find_first(&chars("abc"), &chars("abcd")), None);
    assert_eq!(find_first(&chars(""), &chars("a")), None);
    assert_eq!(find_first(&chars("aab"), &chars("ab")), Some(1));
}

#[test]
fn split_words_cuts_at_white_space() {
    assert_eq!(split_words(&chars("  two  words\there ")), vec![chars("two"), chars("words"), chars("here")]);
    assert_eq!(split_words(&chars("one")), vec![chars("one")]);
    assert_eq!(split_words(&chars("a b")), vec![chars("a"), chars("b")]);
    assert!(split_words(&chars(" \n ")).is_empty());
    assert!(split_words(&chars("")).is_empty());
    for text in ["", " a", "a  b\u{a0}c ", "x\ny\tz", "  lead", "trail  "] {
        let expected: Vec<Vec<char>> = text.split_whitespace().map(chars).collect();
        assert_eq!(split_words(&chars(text)), expected);
    }
}

#[test]
fn match_words_wants_words_in_order() {
    assert!(match_words(&chars("miles blue"), &chars("/music/miles davis/kind of blue")));
    assert!(!match_words(&chars("blue miles"), &chars("/music/miles davis/kind of blue")));
    assert!(!match_words(&chars("miles green"), &chars("/music/miles davis/kind of blue")));
    assert!(match_words(&chars(""), &chars("anything")));
    assert!(match_words(&chars("  "), &chars("")));
    assert!(match_words(&chars("a a"), &chars("xa")));
    // the first place of a word counts, not a later one
    assert!(!match_words(&chars("b a"), &chars("ab a")));
}

#[test]
fn fuzzy_match_ignores_case() {
    assert!(fuzzy_match_string("Miles BLUE", "/Music/Miles Davis/Kind Of Blue/01.flac"));
    assert!(fuzzy_match_string("kind blue", "/Music/Miles Davis/KIND OF BLUE/01.flac"));
    assert!(!fuzzy_match_string("blue kind", "/Music/Miles Davis/Kind Of Blue/01.flac"));
    assert!(!fuzzy_match_string("coltrane", "/Music/Miles Davis/Kind Of Blue/01.flac"));
    assert!(fuzzy_match_string("", "/Music"));
    assert!(fuzzy_match_string("ÉTÉ", "/music/été.flac"));
}

#[test]
fn log_entry_direction() {
    assert_eq!(entry("[ANALYZE - START]").direction(), Direction::Enter);
    assert_eq!(entry("[ANALYZE - END]").direction(), Direction::Exit);
    assert_eq!(entry("[ANALYZE - EVENT] reading").direction(), Direction::Neither);
    assert_eq!(entry("[A - END] after [B - START]").direction(), Direction::Enter);
    assert_eq!(entry("").direction(), Direction::Neither);
    assert_eq!(entry("- start]").direction(), Direction::Neither);
    assert_eq!(entry("-START]").direction(), Direction::Neither);
}

#[test]
fn log_entry_log_type() {
    assert_eq!(entry("[ANALYZE - START]").log_type(), "ANALYZE");
    assert_eq!(entry("[WRITE TRACK - END]").log_type(), "WRITE TRACK");
    assert_eq!(entry("[A - B - C]").log_type(), "A");
    assert_eq!(entry("[plain]").log_type(), "plain]");
    assert_eq!(entry("[").log_type(), "");
    assert_eq!(entry("x - y").log_type(), "");
    assert_eq!(entry("[é - x").log_type(), "é");
    assert_eq!(entry("[ANALYZE - START]").time, "2023-08-09T23:54:27Z");
}

#[test]
fn decimal_writes_numbers() {
    assert_eq!(decimal(0), "0");
    assert_eq!(decimal(7), "7");
    assert_eq!(decimal(10), "10");
    assert_eq!(decimal(1234567890), "1234567890");
    assert_eq!(decimal(u64::MAX), "18446744073709551615");
    assert_eq!(padded(0), "00");
    assert_eq!(padded(9), "09");
    assert_eq!(padded(10), "10");
    assert_eq!(padded(123), "123");
}

#[test]
fn durations_read_as_minutes_and_seconds() {
    assert_eq!(duration_to_human_readable(0), "00:00");
    assert_eq!(duration_to_human_readable(59), "00:59");
    assert_eq!(duration_to_human_readable(60), "01:00");
    assert_eq!(duration_to_human_readable(205), "03:25");
    assert_eq!(duration_to_human_readable(6000), "100:00");
    assert_eq!(samples_to_duration_string(44100, 44100 * 61), "01:01");
    assert_eq!(samples_to_duration_string(44100, 44099), "00:00");
    assert_eq!(samples_to_duration_string(48000, 48000 * 600 + 47999), "10:00");
}

#[test]
fn tracks_and_albums_are_shown() {
    let t = track(3, "So What", "Miles Davis", "Kind of Blue");
    assert_eq!(display_album_header(&t), "Miles Davis – Kind of Blue");
    assert_eq!(display_track(&t), "03 So What");
    assert_eq!(display_track(&track(12, "Twelve", "A", "B")), "12 Twelve");
    assert_eq!(display_track(&track(0, "", "A", "B")), "00 ");
    assert_eq!(display_track(&track(100, "C", "A", "B")), "100 C");
}

#[test]
fn list_rows_head_each_album() {
    let mut list = TrackList::unsafe_new();
    assert!(track_list_to_rows(&list).is_empty());
    list.add_track(track(1, "a", "X", "One"));
    list.add_track(track(2, "b", "X", "One"));
    list.add_track(track(1, "c", "Y", "Two"));
    list.add_track(track(1, "d", "Y", "One"));
    assert_eq!(
        track_list_to_rows(&list),
        vec![
            ListRow::Album(0),
            ListRow::Track(0),
            ListRow::Track(1),
            ListRow::Gap,
            ListRow::Album(2),
            ListRow::Track(2),
            ListRow::Gap,
            ListRow::Album(3),
            ListRow::Track(3),
        ]
    );
    let mut unnamed = TrackList::unsafe_new();
    unnamed.add_track(track(1, "a", "X", ""));
    unnamed.add_track(track(2, "b", "X", "Named"));
    assert_eq!(
        track_list_to_rows(&unnamed),
        vec![ListRow::Track(0), ListRow::Album(1), ListRow::Track(1)]
    );
    assert_eq!(volume_modifier(true), 10);
    assert_eq!(volume_modifier(false), 1);
}
