use vstd::prelude::*;
use crate::parse::parse_unsigned;
use crate::parse::parse_unsigned_spec;

verus! {

/// The light programs a lamp can run, with their wire codes.
#[derive(Clone, Copy, Debug, PartialEq, Eq, Structural)]
pub enum LightModes {
    Off,
    Rainbow,
    RainbowSlow,
    Mood,
    Blue,
    BlueMood,
    Flame,
    White,
    Color,
    Orange,
    /// A code that names no program; never a target of an update.
    Unrecognized,
}

/// The program that a code from 0 to 9 names; any other code is unrecognized.
pub open spec fn mode_of_code(v: int) -> LightModes {
    if v == 0 {
        LightModes::Off
    } else if v == 1 {
        LightModes::Rainbow
    } else if v == 2 {
        LightModes::RainbowSlow
    } else if v == 3 {
        LightModes::Mood
    } else if v == 4 {
        LightModes::Blue
    } else if v == 5 {
        LightModes::BlueMood
    } else if v == 6 {
        LightModes::Flame
    } else if v == 7 {
        LightModes::White
    } else if v == 8 {
        LightModes::Color
    } else if v == 9 {
        LightModes::Orange
    } else {
        LightModes::Unrecognized
    }
}

/// The program that text names: a decimal code that fits a `u32` and is one of 0 to 9.
pub open spec fn mode_of_text(s: Seq<char>) -> Option<LightModes> {
    match parse_unsigned_spec(s, 10, u32::MAX as int) {
        Some(v) => if v <= 9 {
            Some(mode_of_code(v))
        } else {
            None
        },
        None => None,
    }
}

impl LightModes {
    /// The wire code; 255 for the unrecognized sentinel.
    pub open spec fn spec_code(self) -> u8 {
        match self {
            LightModes::Off => 0,
            LightModes::Rainbow => 1,
            LightModes::RainbowSlow => 2,
            LightModes::Mood => 3,
            LightModes::Blue => 4,
            LightModes::BlueMood => 5,
            LightModes::Flame => 6,
            LightModes::White => 7,
            LightModes::Color => 8,
            LightModes::Orange => 9,
            LightModes::Unrecognized => 255,
        }
    }

    pub fn code(&self) -> (r: u8)
        ensures
            r == self.spec_code(),
    {
        match self {
            LightModes::Off => 0,
            LightModes::Rainbow => 1,
            LightModes::RainbowSlow => 2,
            LightModes::Mood => 3,
            LightModes::Blue => 4,
            LightModes::BlueMood => 5,
            LightModes::Flame => 6,
            LightModes::White => 7,
            LightModes::Color => 8,
            LightModes::Orange => 9,
            LightModes::Unrecognized => 255,
        }
    }

    /// Reads a program from its decimal code; refuses text that is no
    /// `u32`, and codes that name no program.
    pub fn try_from(value: &str) -> (r: Result<LightModes, ()>)
        ensures
            r matches Ok(m) ==> mode_of_text(value@) == Some(m),
            r is Err ==> mode_of_text(value@) is None,
    {
        match parse_unsigned(value, 10, u32::MAX) {
            Some(v) => if v <= 9 {
                Ok(LightModes::from(v))
            } else {
                Err(())
            },
            None => Err(()),
        }
    }
}

impl From<u32> for LightModes {
    /// The program of a numeric code.
    fn from(value: u32) -> (r: LightModes) {
        match value {
            0 => LightModes::Off,
            1 => LightModes::Rainbow,
            2 => LightModes::RainbowSlow,
            3 => LightModes::Mood,
            4 => LightModes::Blue,
            5 => LightModes::BlueMood,
            6 => LightModes::Flame,
            7 => LightModes::White,
            8 => LightModes::Color,
            9 => LightModes::Orange,
            _ => LightModes::Unrecognized,
        }
    }
}

impl vstd::std_specs::convert::FromSpecImpl<u32> for LightModes {
    open spec fn obeys_from_spec() -> bool {
        true
    }

    open spec fn from_spec(v: u32) -> LightModes {
        mode_of_code(v as int)
    }
}

} // verus!
