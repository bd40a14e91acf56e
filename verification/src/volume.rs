//! The playback volume: a level from 0 to 100.

use crate::text::{decimal, parse_decimal, trim_range, trimmed};
use std::str::FromStr;
use vstd::prelude::*;
use vstd::std_specs::convert::TryFromSpecImpl;

verus! {

/// Why a volume was refused.
#[derive(Debug, PartialEq, Eq)]
pub enum VolumeError {
    /// A level above 100.
    InvalidValue(u8),
    /// Text that does not write a number from 0 to 255.
    InvalidString(String),
}

/// `level` brought into the range of a volume, 0 to 100.
pub open spec fn clamped(level: int) -> int {
    if level < 0 {
        0
    } else if level > 100 {
        100
    } else {
        level
    }
}

/// The byte that `text` writes once the white space at its ends is taken
/// away: a decimal number up to 255. `None` for any other text.
pub open spec fn written_level(text: Seq<char>) -> Option<u8> {
    match decimal(trimmed(text)) {
        Some(v) => if v <= u8::MAX {
            Some(v as u8)
        } else {
            None
        },
        None => None,
    }
}

/// The volume, held as its level.
///
/// Every operation is one indivisible step on the level: it reads the level
/// that it finds and stores the one that follows from it.
#[derive(Debug)]
pub struct Volume {
    level: u8,
}

impl View for Volume {
    type V = u8;

    closed spec fn view(&self) -> u8 {
        self.level
    }
}

impl Volume {
    /// The loudest level.
    pub const MAX: u8 = 100;

    #[verifier::type_invariant]
    spec fn in_range(self) -> bool {
        self.level <= 100
    }

    fn unsafe_from(initial: u8) -> (volume: Self)
        requires
            initial <= 100,
        ensures
            volume@ == initial,
    {
        Volume { level: initial }
    }

    /// The current level.
    pub fn get(&self) -> (level: u8)
        ensures
            level == self@,
            level <= 100,
    {
        proof {
            use_type_invariant(self);
        }
        self.level
    }

    /// Stores `value` as the level, unless it is above 100.
    pub fn set(&mut self, value: u8) -> (r: Result<(), VolumeError>)
        ensures
            value <= 100 ==> r is Ok && final(self)@ == value,
            value > 100 ==> r == Err::<(), VolumeError>(VolumeError::InvalidValue(value))
                && final(self)@ == old(self)@,
    {
        if value > Self::MAX {
            Err(VolumeError::InvalidValue(value))
        } else {
            self.level = value;
            Ok(())
        }
    }

    fn change(&mut self, value: i16) -> (previous: u8)
        requires
            -255 <= value <= 255,
        ensures
            previous == old(self)@,
            final(self)@ == clamped(old(self)@ + value),
    {
        proof {
            use_type_invariant(&*self);
        }
        let previous = self.level;
        let sum: i16 = previous as i16 + value;
        let next: i16 = if sum < 0 {
            0
        } else if sum > 100 {
            100
        } else {
            sum
        };
        self.level = next as u8;
        previous
    }

    /// Raises the level by `value`, stopping at 100.
    ///
    /// Returns the level that was stored before.
    pub fn up(&mut self, value: u8) -> (previous: u8)
        ensures
            previous == old(self)@,
            final(self)@ == clamped(old(self)@ + value),
            final(self)@ <= 100,
            old(self)@ + value > 100 ==> final(self)@ == 100,
    {
        self.change(value as i16)
    }

    /// Lowers the level by `value`, stopping at 0.
    ///
    /// Returns the level that was stored before.
    pub fn down(&mut self, value: u8) -> (previous: u8)
        ensures
            previous == old(self)@,
            final(self)@ == clamped(old(self)@ - value),
            final(self)@ <= 100,
            old(self)@ < value ==> final(self)@ == 0,
    {
        self.change(-(value as i16))
    }

    /// Reads a level out of `value` and stores it.
    ///
    /// White space round the number is ignored. Text that writes no number up
    /// to 255 is returned in `InvalidString`; a number above 100 in
    /// `InvalidValue`. In both cases the level stays as it was.
    pub fn set_from_string(&mut self, value: &str) -> (r: Result<(), VolumeError>)
        ensures
            match written_level(value@) {
                Some(level) => if level <= 100 {
                    r is Ok && final(self)@ == level
                } else {
                    r == Err::<(), VolumeError>(VolumeError::InvalidValue(level)) && final(self)@
                        == old(self)@
                },
                None => (r matches Err(VolumeError::InvalidString(s)) && s@ == value@)
                    && final(self)@ == old(self)@,
            },
    {
        match read_level(value) {
            Some(level) => self.set(level),
            None => Err(VolumeError::InvalidString(value.to_owned())),
        }
    }
}

/// The byte that `text` writes, if it writes one.
fn read_level(text: &str) -> (r: Option<u8>)
    ensures
        r == written_level(text@),
{
    let (from, to) = trim_range(text);
    match parse_decimal(text, from, to) {
        Some(v) => if v <= 255 {
            Some(v as u8)
        } else {
            None
        },
        None => None,
    }
}

impl Default for Volume {
    /// The loudest volume.
    fn default() -> (volume: Self)
        ensures
            volume@ == 100,
    {
        Self::unsafe_from(Self::MAX)
    }
}

impl TryFrom<u8> for Volume {
    type Error = VolumeError;

    /// The volume at level `value`, unless that is above 100.
    fn try_from(value: u8) -> (r: Result<Self, VolumeError>)
        ensures
            value <= 100 ==> r is Ok && r->Ok_0@ == value,
            value > 100 ==> r == Err::<Self, VolumeError>(VolumeError::InvalidValue(value)),
    {
        if value > Self::MAX {
            Err(VolumeError::InvalidValue(value))
        } else {
            Ok(Self::unsafe_from(value))
        }
    }
}

impl TryFromSpecImpl<u8> for Volume {
    open spec fn obeys_try_from_spec() -> bool {
        true
    }

    closed spec fn try_from_spec(value: u8) -> Result<Self, VolumeError> {
        if value > 100 {
            Err(VolumeError::InvalidValue(value))
        } else {
            Ok(Volume { level: value })
        }
    }
}

impl TryFrom<String> for Volume {
    type Error = VolumeError;

    /// The volume at the level that `value` writes; see
    /// [`Volume::set_from_string`] for the texts that are refused.
    fn try_from(value: String) -> (r: Result<Self, VolumeError>)
        ensures
            match written_level(value@) {
                Some(level) => if level <= 100 {
                    r is Ok && r->Ok_0@ == level
                } else {
                    r == Err::<Self, VolumeError>(VolumeError::InvalidValue(level))
                },
                None => r == Err::<Self, VolumeError>(VolumeError::InvalidString(value)),
            },
    {
        match read_level(value.as_str()) {
            Some(level) => Self::try_from(level),
            None => Err(VolumeError::InvalidString(value)),
        }
    }
}

impl TryFromSpecImpl<String> for Volume {
    open spec fn obeys_try_from_spec() -> bool {
        true
    }

    closed spec fn try_from_spec(value: String) -> Result<Self, VolumeError> {
        match written_level(value@) {
            Some(level) => if level <= 100 {
                Ok(Volume { level })
            } else {
                Err(VolumeError::InvalidValue(level))
            },
            None => Err(VolumeError::InvalidString(value)),
        }
    }
}

impl FromStr for Volume {
    type Err = VolumeError;

    /// As [`Volume::try_from`] does for an owned string.
    fn from_str(value: &str) -> (r: Result<Self, VolumeError>)
        ensures
            match written_level(value@) {
                Some(level) => if level <= 100 {
                    r is Ok && r->Ok_0@ == level
                } else {
                    r == Err::<Self, VolumeError>(VolumeError::InvalidValue(level))
                },
                None => (r matches Err(VolumeError::InvalidString(s)) && s@ == value@),
            },
    {
        Self::try_from(value.to_owned())
    }
}

} // verus!
