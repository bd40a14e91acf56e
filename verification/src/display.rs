//! The texts under which tracks, albums and durations are shown.

use crate::track::{Track, TrackView};
use crate::track_list::TrackList;
use vstd::prelude::*;
use vstd::string::StringExecFns;

verus! {

/// The character that writes the digit `d`.
pub open spec fn digit_char(d: nat) -> char {
    if d == 0 {
        '0'
    } else if d == 1 {
        '1'
    } else if d == 2 {
        '2'
    } else if d == 3 {
        '3'
    } else if d == 4 {
        '4'
    } else if d == 5 {
        '5'
    } else if d == 6 {
        '6'
    } else if d == 7 {
        '7'
    } else if d == 8 {
        '8'
    } else {
        '9'
    }
}

/// `n` in decimal, without leading zeros.
pub open spec fn decimal_digits(n: nat) -> Seq<char>
    decreases n,
{
    if n < 10 {
        seq![digit_char(n)]
    } else {
        decimal_digits(n / 10).push(digit_char(n % 10))
    }
}

/// `n` in decimal, with a zero in front where it has one digit only.
pub open spec fn two_digits(n: nat) -> Seq<char> {
    if n < 10 {
        seq!['0', digit_char(n)]
    } else {
        decimal_digits(n)
    }
}

/// A duration as minutes and seconds: `MM:SS`, where the minutes may need
/// more than two digits.
pub open spec fn minutes_and_seconds(seconds: nat) -> Seq<char> {
    two_digits(seconds / 60) + seq![':'] + two_digits(seconds % 60)
}

/// The line that heads an album: the album artist, a dash, the album.
pub open spec fn album_header(album_artist: Seq<char>, album: Seq<char>) -> Seq<char> {
    album_artist + seq![' ', '\u{2013}', ' '] + album
}

/// The line that shows a track: its number in two digits, then its title.
pub open spec fn track_line(number: nat, title: Seq<char>) -> Seq<char> {
    two_digits(number) + seq![' '] + title
}

/// One row of the track list as it is shown.
#[derive(Clone, Copy, Debug, PartialEq, Eq)]
pub enum ListRow {
    /// An empty row, which parts two albums.
    Gap,
    /// The header of the album that the track of this index opens.
    Album(usize),
    /// The track of this index.
    Track(usize),
}

/// The album of the track before track `i`; no text for the first track.
pub open spec fn album_before(tracks: Seq<TrackView>, i: int) -> Seq<char> {
    if i <= 0 {
        Seq::empty()
    } else {
        tracks[i - 1].album
    }
}

/// The rows that show the first `n` tracks: every track has a row, a track
/// whose album differs from that of the track before it has the album's
/// header above it, and a gap above the header where the album before had a
/// name.
pub open spec fn rows_of(tracks: Seq<TrackView>, n: int) -> Seq<ListRow>
    decreases n,
{
    if n <= 0 {
        Seq::empty()
    } else {
        let i = n - 1;
        let above = rows_of(tracks, i);
        let headed = if tracks[i].album == album_before(tracks, i) {
            above
        } else if album_before(tracks, i).len() > 0 {
            above.push(ListRow::Gap).push(ListRow::Album(i as usize))
        } else {
            above.push(ListRow::Album(i as usize))
        };
        headed.push(ListRow::Track(i as usize))
    }
}

/// The rows that show the track list.
pub fn track_list_to_rows(tracks: &TrackList) -> (rows: Vec<ListRow>)
    ensures
        rows@ == rows_of(tracks@, tracks@.len() as int),
{
    let list = tracks.tracks();
    let mut rows: Vec<ListRow> = Vec::new();
    let mut i: usize = 0;
    while i < list.len()
        invariant
            i <= list@.len(),
            list@.len() == tracks@.len(),
            forall|k: int| 0 <= k < list@.len() ==> (#[trigger] list@[k])@ == tracks@[k],
            rows@ == rows_of(tracks@, i as int),
        decreases list@.len() - i,
    {
        let track = &list[i];
        let changed = if i == 0 {
            !track.album().as_str().is_empty()
        } else {
            !(*track.album() == *list[i - 1].album())
        };
        if changed {
            if i > 0 && !list[i - 1].album().as_str().is_empty() {
                rows.push(ListRow::Gap);
            }
            rows.push(ListRow::Album(i));
        }
        rows.push(ListRow::Track(i));
        proof {
            assert(track@ == tracks@[i as int]);
            if i > 0 {
                assert(list@[i - 1]@ == tracks@[i - 1]);
            }
            assert(tracks@[i as int].album == album_before(tracks@, i as int) <==> !changed) by {
                if i == 0 {
                    assert(album_before(tracks@, 0).len() == 0);
                    if track@.album.len() == 0 {
                        assert(track@.album =~= Seq::<char>::empty());
                    }
                }
            }
        }
        i += 1;
    }
    rows
}

/// By how much one press of an arrow key changes the volume: by ten while
/// shift is held, by one otherwise.
pub fn volume_modifier(holding_shift: bool) -> (step: u8)
    ensures
        holding_shift ==> step == 10,
        !holding_shift ==> step == 1,
{
    if holding_shift {
        10
    } else {
        1
    }
}

fn digit_text(d: u64) -> (text: &'static str)
    requires
        d < 10,
    ensures
        text@ == seq![digit_char(d as nat)],
{
    proof {
        reveal_strlit("0");
        reveal_strlit("1");
        reveal_strlit("2");
        reveal_strlit("3");
        reveal_strlit("4");
        reveal_strlit("5");
        reveal_strlit("6");
        reveal_strlit("7");
        reveal_strlit("8");
        reveal_strlit("9");
    }
    let text = if d == 0 {
        "0"
    } else if d == 1 {
        "1"
    } else if d == 2 {
        "2"
    } else if d == 3 {
        "3"
    } else if d == 4 {
        "4"
    } else if d == 5 {
        "5"
    } else if d == 6 {
        "6"
    } else if d == 7 {
        "7"
    } else if d == 8 {
        "8"
    } else {
        "9"
    };
    assert(text@ =~= seq![digit_char(d as nat)]);
    text
}

/// Writes `n` in decimal.
pub fn decimal(n: u64) -> (text: String)
    ensures
        text@ == decimal_digits(n as nat),
    decreases n,
{
    if n < 10 {
        digit_text(n).to_owned()
    } else {
        let mut text = decimal(n / 10);
        text.append(digit_text(n % 10));
        assert(text@ =~= decimal_digits(n as nat));
        text
    }
}

/// Writes `n` in decimal, in two digits at least.
pub fn padded(n: u64) -> (text: String)
    ensures
        text@ == two_digits(n as nat),
{
    if n < 10 {
        let mut text = digit_text(0).to_owned();
        text.append(digit_text(n));
        assert(text@ =~= two_digits(n as nat));
        text
    } else {
        decimal(n)
    }
}

/// Writes a duration of `seconds` seconds as minutes and seconds.
pub fn duration_to_human_readable(seconds: u64) -> (text: String)
    ensures
        text@ == minutes_and_seconds(seconds as nat),
{
    let mut text = padded(seconds / 60);
    proof {
        reveal_strlit(":");
    }
    text.append(":");
    text.append(padded(seconds % 60).as_str());
    assert(text@ =~= minutes_and_seconds(seconds as nat));
    text
}

/// Writes the time that `samples` frames take at `sample_rate` frames a
/// second, in whole seconds.
pub fn samples_to_duration_string(sample_rate: usize, samples: u64) -> (text: String)
    requires
        sample_rate > 0,
    ensures
        text@ == minutes_and_seconds((samples / sample_rate as u64) as nat),
{
    duration_to_human_readable(samples / sample_rate as u64)
}

/// The line that heads the album of `track`.
pub fn display_album_header(track: &Track) -> (text: String)
    ensures
        text@ == album_header(track@.album_artist, track@.album),
{
    let mut text = track.album_artist().clone();
    proof {
        reveal_strlit(" \u{2013} ");
    }
    text.append(" \u{2013} ");
    text.append(track.album().as_str());
    assert(text@ =~= album_header(track@.album_artist, track@.album));
    text
}

/// The line that shows `track` in a list.
pub fn display_track(track: &Track) -> (text: String)
    ensures
        text@ == track_line(track@.track as nat, track@.title),
{
    let mut text = padded(track.track() as u64);
    proof {
        reveal_strlit(" ");
    }
    text.append(" ");
    text.append(track.title().as_str());
    assert(text@ =~= track_line(track@.track as nat, track@.title));
    text
}

} // verus!
