use vstd::prelude::*;
use crate::registry::Lamp;
use crate::registry::Modes;

verus! {

/// A program as key, code and label.
pub open spec fn entry_of(m: Modes) -> (Seq<char>, u32, Seq<char>) {
    (m.name@, m.value, m.label@)
}

pub open spec fn entries_of(modes: Seq<Modes>) -> Seq<(Seq<char>, u32, Seq<char>)> {
    modes.map_values(|m: Modes| entry_of(m))
}

/// The programs that the bar lamp offers, in order.
pub open spec fn bar_modes() -> Seq<(Seq<char>, u32, Seq<char>)> {
    seq![
        ("off"@, 0u32, "Off"@),
        ("rainbow"@, 1u32, "Rainbow"@),
        ("rainbow_slow"@, 2u32, "Slow"@),
        ("mood"@, 3u32, "Mood"@),
        ("blue"@, 4u32, "Blue"@),
        ("blue_mode"@, 5u32, "Mood Blue"@),
        ("flame"@, 6u32, "Flame"@),
    ]
}

/// The programs that the tv lamp offers, in order; it has no flame.
pub open spec fn tv_modes() -> Seq<(Seq<char>, u32, Seq<char>)> {
    seq![
        ("off"@, 0u32, "Off"@),
        ("rainbow"@, 1u32, "Rainbow"@),
        ("rainbow_slow"@, 2u32, "Slow"@),
        ("mood"@, 3u32, "Mood"@),
        ("blue"@, 4u32, "Blue"@),
        ("blue_mode"@, 5u32, "Mood Blue"@),
        ("white"@, 7u32, "White"@),
        ("color"@, 8u32, "Color"@),
        ("orange"@, 9u32, "Orange"@),
    ]
}

/// The lamps this server controls: the bar lamp, then the tv lamp.
pub fn configured_lamps() -> (r: Vec<Lamp>)
    ensures
        r@.len() == 2,
        r@[0].name@ == "Bar"@,
        r@[0].topic_cmd@ == "/bar/light"@,
        r@[0].topic_connect@ == "/bar/connect"@,
        r@[0].file@ == "bar.json"@,
        r@[0].title@ == "Bar"@,
        entries_of(r@[0].modes@) == bar_modes(),
        r@[1].name@ == "Tv"@,
        r@[1].topic_cmd@ == "/rgbw1/light"@,
        r@[1].topic_connect@ == "/rgbw1/connect"@,
        r@[1].file@ == "tv.json"@,
        r@[1].title@ == "Tv"@,
        entries_of(r@[1].modes@) == tv_modes(),
        r@[0].topic_connect@ != r@[1].topic_connect@,
{
    proof {
        reveal_strlit("/bar/connect");
        reveal_strlit("/rgbw1/connect");
        assert("/bar/connect"@[1] != "/rgbw1/connect"@[1]);
    }
    let bar = Lamp {
        name: "Bar".to_owned(),
        topic_cmd: "/bar/light".to_owned(),
        topic_connect: "/bar/connect".to_owned(),
        title: "Bar".to_owned(),
        file: "bar.json".to_owned(),
        modes: vec![
            Modes::from(("off", 0, "Off")),
            Modes::from(("rainbow", 1, "Rainbow")),
            Modes::from(("rainbow_slow", 2, "Slow")),
            Modes::from(("mood", 3, "Mood")),
            Modes::from(("blue", 4, "Blue")),
            Modes::from(("blue_mode", 5, "Mood Blue")),
            Modes::from(("flame", 6, "Flame")),
        ],
    };
    assert(entries_of(bar.modes@) =~= bar_modes());
    let tv = Lamp {
        name: "Tv".to_owned(),
        topic_cmd: "/rgbw1/light".to_owned(),
        topic_connect: "/rgbw1/connect".to_owned(),
        title: "Tv".to_owned(),
        file: "tv.json".to_owned(),
        modes: vec![
            Modes::from(("off", 0, "Off")),
            Modes::from(("rainbow", 1, "Rainbow")),
            Modes::from(("rainbow_slow", 2, "Slow")),
            Modes::from(("mood", 3, "Mood")),
            Modes::from(("blue", 4, "Blue")),
            Modes::from(("blue_mode", 5, "Mood Blue")),
            Modes::from(("white", 7, "White")),
            Modes::from(("color", 8, "Color")),
            Modes::from(("orange", 9, "Orange")),
        ],
    };
    assert(entries_of(tv.modes@) =~= tv_modes());
    vec![bar, tv]
}

} // verus!
