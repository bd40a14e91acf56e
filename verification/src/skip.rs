//! The time to skip at the start of playback.

use crate::cells::wrapping_sum;
use crate::text::{decimal, is_digit, parse_decimal, unsigned_part};
use vstd::prelude::*;

verus! {

/// The character at `i` is the only colon of `s`.
pub open spec fn only_colon(s: Seq<char>, i: int) -> bool {
    &&& 0 <= i < s.len()
    &&& s[i] == ':'
    &&& forall|j: int| 0 <= j < s.len() && j != i ==> s[j] != ':'
}

/// A decimal number that fits 64 bits.
pub open spec fn field(s: Seq<char>) -> Option<nat> {
    match decimal(s) {
        Some(v) => if v <= u64::MAX {
            Some(v)
        } else {
            None
        },
        None => None,
    }
}

/// The seconds that the fields round the colon at `i` write: sixty times the
/// left field plus the right field, where both are numbers and the sum fits
/// 64 bits.
pub open spec fn seconds_around(s: Seq<char>, i: int) -> Option<nat> {
    match (field(s.subrange(0, i)), field(s.subrange(i + 1, s.len() as int))) {
        (Some(minutes), Some(seconds)) => if minutes * 60 + seconds <= u64::MAX {
            Some(minutes * 60 + seconds)
        } else {
            None
        },
        _ => None,
    }
}

/// The seconds that a time code writes: two decimal fields with one colon
/// between them, minutes on the left and seconds on the right. `None` for any
/// other text.
pub open spec fn seconds_of(s: Seq<char>) -> Option<nat> {
    if exists|i: int| only_colon(s, i) {
        seconds_around(s, choose|i: int| only_colon(s, i))
    } else {
        None
    }
}

/// A text has at most one only colon.
pub proof fn lemma_only_colon_unique(s: Seq<char>, i: int)
    requires
        only_colon(s, i),
    ensures
        seconds_of(s) == seconds_around(s, i),
{
    let j = choose|j: int| only_colon(s, j);
    assert(j == i);
}

/// A decimal number holds no colon.
proof fn lemma_number_has_no_colon(s: Seq<char>)
    requires
        decimal(s) is Some,
    ensures
        forall|j: int| 0 <= j < s.len() ==> s[j] != ':',
{
    let digits = unsigned_part(s);
    assert forall|j: int| 0 <= j < s.len() implies s[j] != ':' by {
        if digits.len() == s.len() {
            assert(is_digit(digits[j]));
        } else if j > 0 {
            assert(is_digit(digits[j - 1]));
        }
    }
}

/// A time code gives back what was written into it: `minutes`, a colon and
/// `seconds`, both decimal numbers, write `60 * minutes + seconds` seconds.
/// They drain as that many times the sample rate, and a second drain, which
/// finds no seconds, gives nothing.
pub proof fn lemma_time_code_round_trip(minutes: Seq<char>, seconds: Seq<char>, sample_rate: u32)
    requires
        field(minutes) is Some,
        field(seconds) is Some,
        field(minutes)->0 * 60 + field(seconds)->0 <= u64::MAX,
    ensures
        seconds_of(minutes + seq![':'] + seconds) == Some(
            field(minutes)->0 * 60 + field(seconds)->0,
        ),
        drained(seconds_of(minutes + seq![':'] + seconds)->0, sample_rate) == (field(minutes)->0
            * 60 + field(seconds)->0) * sample_rate,
        drained(0, sample_rate) == 0,
{
    let s = minutes + seq![':'] + seconds;
    let i = minutes.len() as int;
    assert(s.subrange(0, i) =~= minutes);
    assert(s.subrange(i + 1, s.len() as int) =~= seconds);
    lemma_number_has_no_colon(minutes);
    lemma_number_has_no_colon(seconds);
    assert forall|j: int| 0 <= j < s.len() && j != i implies s[j] != ':' by {
        if j < i {
            assert(s[j] == minutes[j]);
        } else {
            assert(s[j] == seconds[j - i - 1]);
        }
    }
    lemma_only_colon_unique(s, i);
}

/// The interleaved samples that `secs` seconds drain as at `sample_rate`.
pub open spec fn drained(secs: nat, sample_rate: u32) -> nat {
    secs * sample_rate as nat
}

/// Seconds of audio still to be skipped.
#[derive(Debug)]
pub struct SkipSecs {
    secs: u64,
}

impl View for SkipSecs {
    type V = u64;

    closed spec fn view(&self) -> u64 {
        self.secs
    }
}

impl SkipSecs {
    /// `value` seconds to skip.
    pub fn new(value: u64) -> (skip: Self)
        ensures
            skip@ == value,
    {
        SkipSecs { secs: value }
    }

    /// Reads a time code: minutes, a colon, seconds.
    ///
    /// `None` where the text is no time code: not exactly one colon, a field
    /// that is no decimal number of 64 bits, or more seconds than 64 bits
    /// count.
    pub fn parse(value: String) -> (r: Option<Self>)
        ensures
            r is Some <==> seconds_of(value@) is Some,
            r matches Some(skip) ==> skip@ == seconds_of(value@)->0,
    {
        let text = value.as_str();
        let n = text.unicode_len();
        let mut colon: usize = 0;
        let mut found = false;
        let mut i: usize = 0;
        while i < n
            invariant
                i <= n == text@.len(),
                text@ == value@,
                found ==> colon < i && text@[colon as int] == ':',
                forall|j: int| 0 <= j < i && !(found && j == colon) ==> text@[j] != ':',
            decreases n - i,
        {
            if text.get_char(i) == ':' {
                if found {
                    assert forall|k: int| !only_colon(text@, k) by {
                        if only_colon(text@, k) {
                            assert(text@[colon as int] == ':' && text@[i as int] == ':');
                        }
                    }
                    return None;
                }
                found = true;
                colon = i;
            }
            i += 1;
        }
        if !found {
            assert forall|k: int| !only_colon(text@, k) by {}
            return None;
        }
        proof {
            lemma_only_colon_unique(text@, colon as int);
        }
        let minutes = match parse_decimal(text, 0, colon) {
            Some(m) => m,
            None => {
                return None;
            },
        };
        let seconds = match parse_decimal(text, colon + 1, n) {
            Some(s) => s,
            None => {
                return None;
            },
        };
        let secs = match minutes.checked_mul(60) {
            Some(m) => m.checked_add(seconds),
            None => None,
        };
        match secs {
            Some(secs) => Some(Self::new(secs)),
            None => None,
        }
    }

    /// The seconds still to be skipped.
    pub fn seconds(&self) -> (secs: u64)
        ensures
            secs == self@,
    {
        self.secs
    }

    /// Takes the seconds out, leaving none, and returns them as a number of
    /// samples at `sample_rate`.
    pub fn drain_as_interleaved_samples(&mut self, sample_rate: u32) -> (samples: u64)
        requires
            old(self)@ * sample_rate <= u64::MAX,
        ensures
            samples == drained(old(self)@ as nat, sample_rate),
            final(self)@ == 0,
    {
        let secs = self.secs;
        self.secs = 0;
        assert(secs * sample_rate <= u64::MAX);
        secs * (sample_rate as u64)
    }

    /// Adds `value` seconds to those still to be skipped.
    pub fn skip_forward(&mut self, value: u64)
        ensures
            final(self)@ == wrapping_sum(old(self)@, value),
    {
        self.secs = self.secs.wrapping_add(value);
    }
}

impl Default for SkipSecs {
    /// Nothing to skip.
    fn default() -> (skip: Self)
        ensures
            skip@ == 0,
    {
        Self::new(0)
    }
}

} // verus!
