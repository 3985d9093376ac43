use vstd::prelude::*;
use vstd::string::*;
use crate::mode::LightModes;
use crate::mode::mode_of_text;
use crate::parse::parse_unsigned;
use crate::parse::parse_unsigned_spec;
use crate::parse::trim_leading;
use crate::parse::trim_leading_spec;
use crate::parse::text_equals;

verus! {

/// The state of one lamp: its program, speed, brightness and colour.
#[derive(Clone, Copy, Debug, PartialEq, Eq)]
pub struct LampData {
    pub mode: LightModes,
    pub speed: u16,
    pub brightness: u16,
    pub color: (u8, u8, u8),
}

/// The state of a lamp that has none saved.
pub open spec fn default_data() -> LampData {
    LampData { mode: LightModes::Off, speed: 100, brightness: 100, color: (125, 125, 0) }
}

impl Default for LampData {
    fn default() -> (r: LampData)
        ensures
            r == default_data(),
    {
        LampData { mode: LightModes::Off, speed: 100, brightness: 100, color: (125, 125, 0) }
    }
}

/// The fields of a lamp's state that an update can name.
#[derive(Clone, Copy, Debug, PartialEq, Eq, Structural)]
pub enum Field {
    Mode,
    Speed,
    Brightness,
    Color,
}

pub open spec fn field_of(key: Seq<char>) -> Option<Field> {
    if key == seq!['m', 'o', 'd', 'e'] {
        Some(Field::Mode)
    } else if key == seq!['s', 'p', 'e', 'e', 'd'] {
        Some(Field::Speed)
    } else if key == seq!['b', 'r', 'i', 'g', 'h', 't', 'n', 'e', 's', 's'] {
        Some(Field::Brightness)
    } else if key == seq!['c', 'o', 'l', 'o', 'r'] {
        Some(Field::Color)
    } else {
        None
    }
}

impl Field {
    /// The field that an update key names, if any.
    pub fn parse(key: &str) -> (r: Option<Field>)
        ensures
            r == field_of(key@),
    {
        proof {
            reveal_strlit("mode");
            reveal_strlit("speed");
            reveal_strlit("brightness");
            reveal_strlit("color");
            assert("mode"@ =~= seq!['m', 'o', 'd', 'e']);
            assert("speed"@ =~= seq!['s', 'p', 'e', 'e', 'd']);
            assert("brightness"@ =~= seq!['b', 'r', 'i', 'g', 'h', 't', 'n', 'e', 's', 's']);
            assert("color"@ =~= seq!['c', 'o', 'l', 'o', 'r']);
        }
        if text_equals(key, "mode") {
            Some(Field::Mode)
        } else if text_equals(key, "speed") {
            Some(Field::Speed)
        } else if text_equals(key, "brightness") {
            Some(Field::Brightness)
        } else if text_equals(key, "color") {
            Some(Field::Color)
        } else {
            None
        }
    }
}

/// The three 8-bit channels of a 24-bit colour: bits 16 to 23, 8 to 15, 0 to 7.
pub open spec fn color_of(x: int) -> (u8, u8, u8) {
    (((x / 65536) % 256) as u8, ((x / 256) % 256) as u8, (x % 256) as u8)
}

/// Splits an integer into red, green and blue; bits above 23 are dropped.
pub fn transform_u32_to_color(x: u32) -> (r: (u8, u8, u8))
    ensures
        r == color_of(x as int),
{
    let b1: u8 = ((x >> 16u32) & 0xffu32) as u8;
    let b2: u8 = ((x >> 8u32) & 0xffu32) as u8;
    let b3: u8 = (x & 0xffu32) as u8;
    assert((x >> 16u32) & 0xffu32 == (x / 65536) % 256) by (bit_vector);
    assert((x >> 8u32) & 0xffu32 == (x / 256) % 256) by (bit_vector);
    assert(x & 0xffu32 == x % 256) by (bit_vector);
    (b1, b2, b3)
}

/// A speed that text gives: a `u16` in (0, 512].
pub open spec fn speed_of_text(s: Seq<char>) -> Option<u16> {
    match parse_unsigned_spec(s, 10, u16::MAX as int) {
        Some(v) => if 0 < v <= 512 {
            Some(v as u16)
        } else {
            None
        },
        None => None,
    }
}

/// A brightness that text gives: a `u16` in [0, 255].
pub open spec fn brightness_of_text(s: Seq<char>) -> Option<u16> {
    match parse_unsigned_spec(s, 10, u16::MAX as int) {
        Some(v) => if v <= 255 {
            Some(v as u16)
        } else {
            None
        },
        None => None,
    }
}

/// A colour that text gives: hexadecimal digits of a `u32` after any leading `#`.
pub open spec fn color_of_text(s: Seq<char>) -> Option<(u8, u8, u8)> {
    match parse_unsigned_spec(trim_leading_spec(s, '#'), 16, u32::MAX as int) {
        Some(v) => Some(color_of(v)),
        None => None,
    }
}

/// Whether an update of `key` to `value` is accepted.
pub open spec fn accepts(key: Seq<char>, value: Seq<char>) -> bool {
    match field_of(key) {
        Some(Field::Mode) => mode_of_text(value) is Some,
        Some(Field::Speed) => speed_of_text(value) is Some,
        Some(Field::Brightness) => brightness_of_text(value) is Some,
        Some(Field::Color) => color_of_text(value) is Some,
        None => false,
    }
}

/// The state after an update of `key` to `value`: the named field takes the
/// value where it is valid; otherwise nothing changes.
pub open spec fn apply_spec(d: LampData, key: Seq<char>, value: Seq<char>) -> LampData {
    match field_of(key) {
        Some(Field::Mode) => match mode_of_text(value) {
            Some(m) => LampData { mode: m, ..d },
            None => d,
        },
        Some(Field::Speed) => match speed_of_text(value) {
            Some(v) => LampData { speed: v, ..d },
            None => d,
        },
        Some(Field::Brightness) => match brightness_of_text(value) {
            Some(v) => LampData { brightness: v, ..d },
            None => d,
        },
        Some(Field::Color) => match color_of_text(value) {
            Some(c) => LampData { color: c, ..d },
            None => d,
        },
        None => d,
    }
}

impl LampData {
    /// Every field holds a value that a default or an accepted update gives.
    pub open spec fn wf(self) -> bool {
        &&& self.mode != LightModes::Unrecognized
        &&& 0 < self.speed <= 512
        &&& self.brightness <= 255
    }

    /// Applies one field update and returns the resulting state. Invalid
    /// values and unknown keys leave the state as it was.
    pub fn apply(&mut self, key: &str, value: &str) -> (r: LampData)
        ensures
            *final(self) == apply_spec(*old(self), key@, value@),
            r == *final(self),
    {
        match Field::parse(key) {
            Some(Field::Mode) => {
                if let Ok(m) = LightModes::try_from(value) {
                    self.mode = m;
                }
            },
            Some(Field::Speed) => {
                if let Some(s) = parse_unsigned(value, 10, 65535) {
                    if s > 0 && s <= 512 {
                        self.speed = s as u16;
                    }
                }
            },
            Some(Field::Brightness) => {
                if let Some(b) = parse_unsigned(value, 10, 65535) {
                    if b <= 255 {
                        self.brightness = b as u16;
                    }
                }
            },
            Some(Field::Color) => {
                let hex = trim_leading(value, '#');
                if let Some(col) = parse_unsigned(hex, 16, u32::MAX) {
                    self.color = transform_u32_to_color(col);
                }
            },
            None => {},
        }
        *self
    }
}

/// Whether an update of `key` to `value` is accepted.
pub fn update_accepted(key: &str, value: &str) -> (r: bool)
    ensures
        r == accepts(key@, value@),
{
    match Field::parse(key) {
        Some(Field::Mode) => LightModes::try_from(value).is_ok(),
        Some(Field::Speed) => match parse_unsigned(value, 10, 65535) {
            Some(s) => s > 0 && s <= 512,
            None => false,
        },
        Some(Field::Brightness) => match parse_unsigned(value, 10, 65535) {
            Some(b) => b <= 255,
            None => false,
        },
        Some(Field::Color) => parse_unsigned(trim_leading(value, '#'), 16, u32::MAX).is_some(),
        None => false,
    }
}

/// An accepted update sets its field to the value read from the text and
/// keeps every other field.
pub proof fn lemma_accepted_update(d: LampData, key: Seq<char>, value: Seq<char>)
    requires
        accepts(key, value),
    ensures
        ({
            let r = apply_spec(d, key, value);
            match field_of(key) {
                Some(Field::Mode) => r == LampData { mode: mode_of_text(value)->0, ..d },
                Some(Field::Speed) => r == LampData { speed: speed_of_text(value)->0, ..d },
                Some(Field::Brightness) => r == LampData {
                    brightness: brightness_of_text(value)->0,
                    ..d
                },
                Some(Field::Color) => r == LampData { color: color_of_text(value)->0, ..d },
                None => false,
            }
        }),
{
}

/// An update that is not accepted leaves the state as it was.
pub proof fn lemma_rejected_update(d: LampData, key: Seq<char>, value: Seq<char>)
    requires
        !accepts(key, value),
    ensures
        apply_spec(d, key, value) == d,
{
}

/// Applying the same update twice gives the state that applying it once gives.
pub proof fn lemma_update_idempotent(d: LampData, key: Seq<char>, value: Seq<char>)
    ensures
        apply_spec(apply_spec(d, key, value), key, value) == apply_spec(d, key, value),
{
}

/// Updates keep a well-formed state well-formed.
pub proof fn lemma_update_keeps_wf(d: LampData, key: Seq<char>, value: Seq<char>)
    requires
        d.wf(),
    ensures
        apply_spec(d, key, value).wf(),
{
    let m = mode_of_text(value);
    if m is Some {
        let v = parse_unsigned_spec(value, 10, u32::MAX as int)->0;
        assert(0 <= v) by {
            crate::parse::lemma_digits_value_nonneg(crate::parse::unsigned_body(value), 10);
        }
    }
}

} // verus!
