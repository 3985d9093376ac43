use vstd::prelude::*;
use vstd::string::*;
use crate::codec::encode;
use crate::codec::json_of;
use crate::codec::mode_from_wire;
use crate::codec::mode_of_wire;
use crate::lamp::accepts;
use crate::lamp::LampData;
use crate::lamp::apply_spec;
use crate::lamp::default_data;
use crate::mode::LightModes;

verus! {

/// One program that a lamp offers: its key, its code and its label.
pub struct Modes {
    pub name: String,
    pub value: u32,
    pub label: String,
}

impl Modes {
    pub fn from(val: (&str, u32, &str)) -> (r: Modes)
        ensures
            r.name@ == val.0@,
            r.value == val.1,
            r.label@ == val.2@,
    {
        Modes { name: val.0.to_owned(), value: val.1, label: val.2.to_owned() }
    }
}

/// The fixed description of one lamp.
pub struct Lamp {
    /// The name it is looked up by, in any case.
    pub name: String,
    /// Where its state is published.
    pub topic_cmd: String,
    /// Where it announces that it has connected.
    pub topic_connect: String,
    pub title: String,
    /// Where its state is saved.
    pub file: String,
    /// The programs it offers, in the order they are shown.
    pub modes: Vec<Modes>,
}

/// The lower-case form of a text, as `str::to_lowercase` gives it.
pub uninterp spec fn lower_of(s: Seq<char>) -> Seq<char>;

/// Relies on `str::to_lowercase`: the result depends on the characters alone.
#[verifier::external_body]
fn lowercase(s: &str) -> (r: String)
    ensures
        r@ == lower_of(s@),
{
    s.to_lowercase()
}

/// Whether `name` names the lamp `l`, case aside.
pub open spec fn names(name: Seq<char>, l: Lamp) -> bool {
    lower_of(name) == lower_of(l.name@)
}

/// The registry of lamps, fixed once it is built.
pub struct LampState {
    pub lamps: Vec<Lamp>,
}

/// The first code in `modes` that equals `code`, or 0.
pub open spec fn active_mode_spec(modes: Seq<Modes>, code: u32) -> u32
    decreases modes.len(),
{
    if modes.len() == 0 {
        0
    } else if modes[0].value == code {
        code
    } else {
        active_mode_spec(modes.drop_first(), code)
    }
}

pub open spec fn hex_char(n: int) -> char {
    if n < 10 {
        crate::codec::digit_char(n)
    } else if n == 10 {
        'a'
    } else if n == 11 {
        'b'
    } else if n == 12 {
        'c'
    } else if n == 13 {
        'd'
    } else if n == 14 {
        'e'
    } else {
        'f'
    }
}

/// `#rrggbb` in lower-case hexadecimal, two digits for each channel.
pub open spec fn color_text(c: (u8, u8, u8)) -> Seq<char> {
    seq![
        '#',
        hex_char(c.0 as int / 16),
        hex_char(c.0 as int % 16),
        hex_char(c.1 as int / 16),
        hex_char(c.1 as int % 16),
        hex_char(c.2 as int / 16),
        hex_char(c.2 as int % 16),
    ]
}

fn hex_text(n: u8) -> (r: &'static str)
    requires
        n < 16,
    ensures
        r@ == seq![hex_char(n as int)],
{
    proof {
        reveal_strlit("0");
        reveal_strlit("1");
        reveal_strlit("2");
        reveal_strlit("3");
        reveal_strlit("4");
        reveal_strlit("5");
        reveal_strlit("6");
        reveal_strlit("7");
        reveal_strlit("8");
        reveal_strlit("9");
        reveal_strlit("a");
        reveal_strlit("b");
        reveal_strlit("c");
        reveal_strlit("d");
        reveal_strlit("e");
        reveal_strlit("f");
    }
    match n {
        0 => "0",
        1 => "1",
        2 => "2",
        3 => "3",
        4 => "4",
        5 => "5",
        6 => "6",
        7 => "7",
        8 => "8",
        9 => "9",
        10 => "a",
        11 => "b",
        12 => "c",
        13 => "d",
        14 => "e",
        _ => "f",
    }
}

/// A colour as `#rrggbb`.
pub fn color_hex(c: (u8, u8, u8)) -> (r: String)
    ensures
        r@ == color_text(c),
{
    proof {
        reveal_strlit("#");
    }
    let mut out = "#".to_owned();
    out.append(hex_text(c.0 / 16));
    out.append(hex_text(c.0 % 16));
    out.append(hex_text(c.1 / 16));
    out.append(hex_text(c.1 % 16));
    out.append(hex_text(c.2 / 16));
    out.append(hex_text(c.2 % 16));
    assert(out@ =~= color_text(c));
    out
}

/// What a lamp's control page shows.
pub struct PageContext {
    pub title: String,
    /// The code of the lamp's program where the lamp offers it, else 0.
    pub activemode: u32,
    pub brightness: u16,
    pub speed: u16,
    pub color: String,
    /// The state as JSON text.
    pub data: String,
    /// The lamp's name in lower case, as its pages are addressed.
    pub url: String,
}

/// A state to publish, and where to.
pub struct StateMessage {
    pub topic: String,
    pub payload: String,
}

/// The result of one update: the new state, and where to save and publish it.
pub struct Update {
    pub state: LampData,
    /// Whether the update was accepted; a rejected one left the state as it was.
    pub accepted: bool,
    pub file: String,
    pub topic: String,
    /// The JSON text of the new state, both saved and published.
    pub payload: String,
}

/// The fields of a saved state, as read back from its JSON text.
#[derive(Clone, Copy, Debug, PartialEq, Eq)]
pub struct SavedState {
    /// The wire code of the program.
    pub mode: u8,
    pub speed: u16,
    pub brightness: u16,
    pub color: (u8, u8, u8),
}

/// The fields that the JSON text of `d` holds.
pub open spec fn saved_of(d: LampData) -> SavedState {
    SavedState {
        mode: d.mode.spec_code(),
        speed: d.speed,
        brightness: d.brightness,
        color: d.color,
    }
}

/// The state that saved fields describe, where their mode code names one.
pub open spec fn state_of_saved(s: SavedState) -> Option<LampData> {
    match mode_of_wire(s.mode as int) {
        Some(m) => Some(LampData { mode: m, speed: s.speed, brightness: s.brightness, color: s.color }),
        None => None,
    }
}

/// The state a lamp starts in: the saved one where it was read and is
/// well-formed, else the default. `None` stands for no saved state, or one
/// that could not be read.
pub open spec fn loaded_state(saved: Option<SavedState>) -> LampData {
    match saved {
        None => default_data(),
        Some(s) => match state_of_saved(s) {
            Some(d) => if d.wf() {
                d
            } else {
                default_data()
            },
            None => default_data(),
        },
    }
}

pub fn load_data(saved: Option<SavedState>) -> (r: LampData)
    ensures
        r == loaded_state(saved),
        r.wf(),
{
    match saved {
        None => LampData::default(),
        Some(s) => match mode_from_wire(s.mode as u32) {
            Some(mode) => {
                if mode != LightModes::Unrecognized && s.speed > 0 && s.speed <= 512
                    && s.brightness <= 255 {
                    LampData { mode, speed: s.speed, brightness: s.brightness, color: s.color }
                } else {
                    LampData::default()
                }
            },
            None => LampData::default(),
        },
    }
}

/// A well-formed state that was saved loads back unchanged.
pub proof fn lemma_save_then_load(d: LampData)
    requires
        d.wf(),
    ensures
        loaded_state(Some(saved_of(d))) == d,
{
    assert(mode_of_wire(d.mode.spec_code() as int) == Some(d.mode));
}

/// The text saved for a state.
pub fn save_data(d: &LampData) -> (r: String)
    ensures
        r@ == json_of(*d),
{
    encode(d)
}

impl Lamp {
    /// The code shown as active: the lamp's program where its list offers it, else 0.
    pub fn active_mode(&self, data: &LampData) -> (r: u32)
        ensures
            r == active_mode_spec(self.modes@, data.mode.spec_code() as u32),
    {
        let code = data.mode.code() as u32;
        let mut i: usize = 0;
        assert(self.modes@.subrange(0, self.modes@.len() as int) =~= self.modes@);
        while i < self.modes.len()
            invariant
                i <= self.modes@.len(),
                code == data.mode.spec_code() as u32,
                active_mode_spec(self.modes@.subrange(i as int, self.modes@.len() as int), code)
                    == active_mode_spec(self.modes@, code),
            decreases self.modes@.len() - i,
        {
            let ghost rest = self.modes@.subrange(i as int, self.modes@.len() as int);
            assert(rest[0] == self.modes@[i as int]);
            if self.modes[i].value == code {
                return code;
            }
            assert(rest.drop_first() =~= self.modes@.subrange(i + 1, self.modes@.len() as int));
            i = i + 1;
        }
        0
    }

    /// The control page of this lamp in the state `data`.
    pub fn page_context(&self, data: &LampData) -> (r: PageContext)
        ensures
            r.title@ == self.title@,
            r.activemode == active_mode_spec(self.modes@, data.mode.spec_code() as u32),
            r.brightness == data.brightness,
            r.speed == data.speed,
            r.color@ == color_text(data.color),
            r.data@ == json_of(*data),
            r.url@ == lower_of(self.name@),
    {
        PageContext {
            title: self.title.clone(),
            activemode: self.active_mode(data),
            brightness: data.brightness,
            speed: data.speed,
            color: color_hex(data.color),
            data: encode(data),
            url: lowercase(self.name.as_str()),
        }
    }

    /// The message that tells this lamp its state. Building it changes no state.
    pub fn state_message(&self, data: &LampData) -> (r: StateMessage)
        ensures
            r.topic@ == self.topic_cmd@,
            r.payload@ == json_of(*data),
    {
        StateMessage { topic: self.topic_cmd.clone(), payload: encode(data) }
    }

    /// Applies one field update to this lamp's state, and says where the new
    /// state is to be saved and published.
    pub fn update(&self, data: &mut LampData, key: &str, value: &str) -> (r: Update)
        ensures
            *final(data) == apply_spec(*old(data), key@, value@),
            r.state == *final(data),
            r.file@ == self.file@,
            r.topic@ == self.topic_cmd@,
            r.payload@ == json_of(r.state),
            r.accepted == accepts(key@, value@),
    {
        let accepted = crate::lamp::update_accepted(key, value);
        let state = data.apply(key, value);
        Update {
            state,
            accepted,
            file: self.file.clone(),
            topic: self.topic_cmd.clone(),
            payload: encode(&state),
        }
    }
}

impl LampState {
    /// No two lamps announce themselves on the same topic.
    pub open spec fn topics_unique(self) -> bool {
        forall|i: int, j: int|
            0 <= i < self.lamps@.len() && 0 <= j < self.lamps@.len() && i != j
                ==> (#[trigger] self.lamps@[i]).topic_connect@ != (#[trigger] self.lamps@[j]).topic_connect@
    }

    pub fn new(lamps: Vec<Lamp>) -> (r: LampState)
        ensures
            r.lamps@ == lamps@,
    {
        LampState { lamps }
    }

    /// The index of the first lamp that `name` names, case aside.
    pub fn find_lamp(&self, name: &str) -> (r: Option<usize>)
        ensures
            r matches Some(i) ==> i < self.lamps@.len() && names(name@, self.lamps@[i as int])
                && forall|j: int| 0 <= j < i ==> !names(name@, #[trigger] self.lamps@[j]),
            r is None ==> forall|j: int|
                0 <= j < self.lamps@.len() ==> !names(name@, #[trigger] self.lamps@[j]),
    {
        let wanted = lowercase(name);
        let mut i: usize = 0;
        while i < self.lamps.len()
            invariant
                i <= self.lamps@.len(),
                wanted@ == lower_of(name@),
                forall|j: int| 0 <= j < i ==> !names(name@, #[trigger] self.lamps@[j]),
            decreases self.lamps@.len() - i,
        {
            let l = lowercase(self.lamps[i].name.as_str());
            if l == wanted {
                return Some(i);
            }
            i = i + 1;
        }
        None
    }

    /// The first lamp that `name` names, case aside.
    pub fn get_lamp(&self, name: &str) -> (r: Option<&Lamp>)
        ensures
            r matches Some(l) ==> exists|i: int|
                0 <= i < self.lamps@.len() && *l == self.lamps@[i] && names(name@, self.lamps@[i])
                    && forall|j: int| 0 <= j < i ==> !names(name@, #[trigger] self.lamps@[j]),
            r is None ==> forall|j: int|
                0 <= j < self.lamps@.len() ==> !names(name@, #[trigger] self.lamps@[j]),
    {
        match self.find_lamp(name) {
            Some(i) => Some(&self.lamps[i]),
            None => None,
        }
    }

    /// The index of the first lamp that announces itself on `topic`.
    pub fn find_by_topic(&self, topic: &str) -> (r: Option<usize>)
        ensures
            r matches Some(i) ==> i < self.lamps@.len() && self.lamps@[i as int].topic_connect@
                == topic@ && forall|j: int|
                0 <= j < i ==> (#[trigger] self.lamps@[j]).topic_connect@ != topic@,
            r is None ==> forall|j: int|
                0 <= j < self.lamps@.len() ==> (#[trigger] self.lamps@[j]).topic_connect@
                    != topic@,
    {
        let mut i: usize = 0;
        while i < self.lamps.len()
            invariant
                i <= self.lamps@.len(),
                forall|j: int|
                    0 <= j < i ==> (#[trigger] self.lamps@[j]).topic_connect@ != topic@,
            decreases self.lamps@.len() - i,
        {
            if crate::parse::text_equals(self.lamps[i].topic_connect.as_str(), topic) {
                return Some(i);
            }
            i = i + 1;
        }
        None
    }

    /// The topics to subscribe to: each lamp's announce topic, in order.
    pub fn connect_topics(&self) -> (r: Vec<String>)
        ensures
            r@.len() == self.lamps@.len(),
            forall|j: int| 0 <= j < r@.len() ==> (#[trigger] r@[j])@ == self.lamps@[j].topic_connect@,
    {
        let mut out: Vec<String> = Vec::new();
        let mut i: usize = 0;
        while i < self.lamps.len()
            invariant
                i <= self.lamps@.len(),
                out@.len() == i,
                forall|j: int|
                    0 <= j < i ==> (#[trigger] out@[j])@ == self.lamps@[j].topic_connect@,
            decreases self.lamps@.len() - i,
        {
            out.push(self.lamps[i].topic_connect.clone());
            i = i + 1;
        }
        out
    }
}

} // verus!
