use lamp_control::bridge::BridgeAction;
use lamp_control::bridge::BridgeEvent;
use lamp_control::codec::decode;
use lamp_control::codec::encode;
use lamp_control::config::configured_lamps;
use lamp_control::index;
use lamp_control::lamp::transform_u32_to_color;
use lamp_control::lamp::Field;
use lamp_control::lamp::LampData;
use lamp_control::mode::LightModes;
use lamp_control::parse::parse_unsigned;
use lamp_control::parse::trim_leading;
use lamp_control::registry::color_hex;
use lamp_control::registry::load_data;
use lamp_control::registry::save_data;
use lamp_control::registry::LampState;
use lamp_control::registry::SavedState;
use lamp_control::registry::Modes;

fn registry() -> LampState {
    LampState::new(configured_lamps())
}

#[test]
fn default_state_values() {
    let d = LampData::default();
    assert_eq!(d.mode, LightModes::Off);
    assert_eq!(d.speed, 100);
    assert_eq!(d.brightness, 100);
    assert_eq!(d.color, (125, 125, 0));
}

#[test]
fn index_is_not_supported() {
    assert_eq!(index(), "Not supported");
}

#[test]
fn color_from_integer() {
    assert_eq!(transform_u32_to_color(0xff8000), (255, 128, 0));
    assert_eq!(transform_u32_to_color(0x123456), (0x12, 0x34, 0x56));
    assert_eq!(transform_u32_to_color(0x01ff8000), (255, 128, 0));
    assert_eq!(transform_u32_to_color(0), (0, 0, 0));
}

#[test]
fn parse_decimal_and_hex() {
    assert_eq!(parse_unsigned("300", 10, 65535), Some(300));
    assert_eq!(parse_unsigned("+42", 10, 65535), Some(42));
    assert_eq!(parse_unsigned("007", 10, 65535), Some(7));
    assert_eq!(parse_unsigned("65536", 10, 65535), None);
    assert_eq!(parse_unsigned("", 10, 65535), None);
    assert_eq!(parse_unsigned("+", 10, 65535), None);
    assert_eq!(parse_unsigned("-1", 10, 65535), None);
    assert_eq!(parse_unsigned("12a", 10, 65535), None);
    assert_eq!(parse_unsigned("ff8000", 16, u32::MAX), Some(0xff8000));
    assert_eq!(parse_unsigned("FFffFFff", 16, u32::MAX), Some(u32::MAX));
    assert_eq!(parse_unsigned("100000000", 16, u32::MAX), None);
    assert_eq!(parse_unsigned("4294967295", 10, u32::MAX), Some(u32::MAX));
    assert_eq!(parse_unsigned("4294967296", 10, u32::MAX), None);
}

#[test]
fn trim_hash_prefix() {
    assert_eq!(trim_leading("#ff8000", '#'), "ff8000");
    assert_eq!(trim_leading("##12", '#'), "12");
    assert_eq!(trim_leading("12#", '#'), "12#");
    assert_eq!(trim_leading("", '#'), "");
}

#[test]
fn mode_from_text_and_code() {
    assert_eq!(LightModes::try_from("1"), Ok(LightModes::Rainbow));
    assert_eq!(LightModes::try_from("9"), Ok(LightModes::Orange));
    assert_eq!(LightModes::try_from("10"), Err(()));
    assert_eq!(LightModes::try_from("x"), Err(()));
    assert_eq!(LightModes::from(6u32), LightModes::Flame);
    assert_eq!(LightModes::from(42u32), LightModes::Unrecognized);
    assert_eq!(LightModes::Unrecognized.code(), 255);
    assert_eq!(LightModes::Color.code(), 8);
}

#[test]
fn field_keys() {
    assert_eq!(Field::parse("mode"), Some(Field::Mode));
    assert_eq!(Field::parse("speed"), Some(Field::Speed));
    assert_eq!(Field::parse("brightness"), Some(Field::Brightness));
    assert_eq!(Field::parse("color"), Some(Field::Color));
    assert_eq!(Field::parse("Mode"), None);
    assert_eq!(Field::parse("volume"), None);
}

#[test]
fn valid_update_sets_only_its_field() {
    let mut d = LampData::default();
    let r = d.apply("brightness", "255");
    assert_eq!(r.brightness, 255);
    assert_eq!(r.mode, LightModes::Off);
    assert_eq!(r.speed, 100);
    assert_eq!(r.color, (125, 125, 0));
    assert_eq!(d, r);
    let r = d.apply("mode", "7");
    assert_eq!(r.mode, LightModes::White);
    assert_eq!(r.brightness, 255);
}

#[test]
fn invalid_updates_change_nothing() {
    let mut d = LampData::default();
    let before = d;
    assert_eq!(d.apply("speed", "0"), before);
    assert_eq!(d.apply("speed", "513"), before);
    assert_eq!(d.apply("speed", "fast"), before);
    assert_eq!(d.apply("brightness", "256"), before);
    assert_eq!(d.apply("mode", "10"), before);
    assert_eq!(d.apply("mode", "-1"), before);
    assert_eq!(d.apply("color", "#xyz"), before);
    assert_eq!(d.apply("color", "#"), before);
    assert_eq!(d.apply("volume", "3"), before);
    assert_eq!(d, before);
}

#[test]
fn speed_edges() {
    let mut d = LampData::default();
    assert_eq!(d.apply("speed", "512").speed, 512);
    assert_eq!(d.apply("speed", "1").speed, 1);
}

#[test]
fn same_update_twice_equals_once() {
    let mut once = LampData::default();
    once.apply("color", "#0a0b0c");
    let mut twice = LampData::default();
    twice.apply("color", "#0a0b0c");
    twice.apply("color", "#0a0b0c");
    assert_eq!(once, twice);
    assert_eq!(once.color, (10, 11, 12));
}

#[test]
fn json_text_of_default() {
    let d = LampData::default();
    assert_eq!(
        encode(&d),
        "{\"mode\":0,\"speed\":100,\"brightness\":100,\"color\":[125,125,0]}"
    );
}

fn saved(mode: u8, speed: u16, brightness: u16, color: (u8, u8, u8)) -> SavedState {
    SavedState { mode, speed, brightness, color }
}

#[test]
fn save_then_load_gives_same_state() {
    let mut d = LampData::default();
    d.apply("mode", "9");
    d.apply("speed", "512");
    d.apply("brightness", "0");
    d.apply("color", "ffffff");
    let text = save_data(&d);
    assert_eq!(decode(text.as_str()), Some(d));
    assert_eq!(load_data(Some(saved(9, 512, 0, (255, 255, 255)))), d);
    let odd = LampData { mode: LightModes::Unrecognized, speed: 65535, brightness: 0, color: (0, 0, 0) };
    assert_eq!(decode(encode(&odd).as_str()), Some(odd));
}

#[test]
fn decode_reads_only_written_text() {
    assert_eq!(decode("not json"), None);
    assert_eq!(decode(""), None);
    let leading_zero = "{\"mode\":01,\"speed\":100,\"brightness\":100,\"color\":[125,125,0]}";
    assert_eq!(decode(leading_zero), None);
    let bad_mode = "{\"mode\":12,\"speed\":100,\"brightness\":100,\"color\":[125,125,0]}";
    assert_eq!(decode(bad_mode), None);
    let trailing = "{\"mode\":1,\"speed\":100,\"brightness\":100,\"color\":[125,125,0]}x";
    assert_eq!(decode(trailing), None);
    let good = "{\"mode\":1,\"speed\":300,\"brightness\":7,\"color\":[1,2,3]}";
    let d = decode(good).unwrap();
    assert_eq!(d.mode, LightModes::Rainbow);
    assert_eq!(d.speed, 300);
    assert_eq!(d.brightness, 7);
    assert_eq!(d.color, (1, 2, 3));
}

#[test]
fn load_falls_back_to_default() {
    assert_eq!(load_data(None), LampData::default());
    assert_eq!(load_data(Some(saved(255, 100, 100, (1, 2, 3)))), LampData::default());
    assert_eq!(load_data(Some(saved(12, 100, 100, (1, 2, 3)))), LampData::default());
    assert_eq!(load_data(Some(saved(1, 0, 100, (1, 2, 3)))), LampData::default());
    assert_eq!(load_data(Some(saved(1, 513, 100, (1, 2, 3)))), LampData::default());
    assert_eq!(load_data(Some(saved(1, 100, 256, (1, 2, 3)))), LampData::default());
    let d = load_data(Some(saved(1, 300, 7, (1, 2, 3))));
    assert_eq!(d.mode, LightModes::Rainbow);
    assert_eq!(d.speed, 300);
    assert_eq!(d.brightness, 7);
    assert_eq!(d.color, (1, 2, 3));
}

#[test]
fn update_reports_acceptance() {
    let reg = registry();
    let mut d = load_data(None);
    assert!(reg.lamps[0].update(&mut d, "speed", "200").accepted);
    assert!(!reg.lamps[0].update(&mut d, "speed", "0").accepted);
    assert!(!reg.lamps[0].update(&mut d, "brigthness", "10").accepted);
    assert_eq!(d.speed, 200);
}

#[test]
fn configured_titles_and_modes() {
    let lamps = configured_lamps();
    assert_eq!(lamps[0].title, "Bar");
    assert_eq!(lamps[1].title, "Tv");
    let tv: Vec<u32> = lamps[1].modes.iter().map(|m| m.value).collect();
    assert_eq!(tv, vec![0, 1, 2, 3, 4, 5, 7, 8, 9]);
    assert_eq!(lamps[1].modes[7].name, "color");
    assert_eq!(lamps[1].modes[7].label, "Color");
}

#[test]
fn lookup_ignores_case() {
    let reg = registry();
    assert_eq!(reg.find_lamp("bar"), Some(0));
    assert_eq!(reg.find_lamp("BAR"), Some(0));
    assert_eq!(reg.find_lamp("tv"), Some(1));
    assert_eq!(reg.find_lamp("unknownlamp"), None);
    assert_eq!(reg.get_lamp("Tv").map(|l| l.file.clone()), Some(String::from("tv.json")));
    assert!(reg.get_lamp("nothing").is_none());
}

#[test]
fn update_bar_speed_from_default() {
    let reg = registry();
    let i = reg.find_lamp("bar").unwrap();
    let mut d = load_data(None);
    let up = reg.lamps[i].update(&mut d, "speed", "300");
    assert!(up.accepted);
    assert_eq!(up.state.speed, 300);
    assert_eq!(up.state.mode, LightModes::Off);
    assert_eq!(up.state.brightness, 100);
    assert_eq!(up.state.color, (125, 125, 0));
    assert_eq!(up.file, "bar.json");
    assert_eq!(up.topic, "/bar/light");
    assert_eq!(decode(up.payload.as_str()).unwrap().speed, 300);
}

#[test]
fn update_bar_speed_out_of_range_is_rejected() {
    let reg = registry();
    let i = reg.find_lamp("bar").unwrap();
    let mut d = load_data(None);
    reg.lamps[i].update(&mut d, "speed", "300");
    let up = reg.lamps[i].update(&mut d, "speed", "9999");
    assert_eq!(up.state.speed, 300);
    let mut fresh = load_data(None);
    let up = reg.lamps[i].update(&mut fresh, "speed", "9999");
    assert_eq!(up.state.speed, 100);
}

#[test]
fn update_tv_color() {
    let reg = registry();
    let i = reg.find_lamp("tv").unwrap();
    let mut d = load_data(None);
    let up = reg.lamps[i].update(&mut d, "color", "ff8000");
    assert_eq!(up.state.color, (255, 128, 0));
    assert_eq!(up.topic, "/rgbw1/light");
}

#[test]
fn update_unknown_lamp_is_not_found() {
    let reg = registry();
    assert_eq!(reg.find_lamp("unknownlamp"), None);
}

#[test]
fn presence_pushes_current_state() {
    let reg = registry();
    let ev = BridgeEvent::Publish { topic: String::from("/rgbw1/connect") };
    let action = reg.on_event(&ev);
    assert_eq!(action, BridgeAction::Push(1));
    let mut d = LampData::default();
    d.apply("mode", "8");
    let before = d;
    let msg = reg.lamps[1].state_message(&d);
    assert_eq!(msg.topic, "/rgbw1/light");
    assert_eq!(msg.payload, encode(&d));
    assert_eq!(d, before);
}

#[test]
fn bridge_other_events() {
    let reg = registry();
    let ev = BridgeEvent::Publish { topic: String::from("/kitchen/connect") };
    assert_eq!(reg.on_event(&ev), BridgeAction::Ignore);
    assert_eq!(reg.on_event(&BridgeEvent::Other), BridgeAction::Ignore);
    assert_eq!(reg.on_event(&BridgeEvent::Failed), BridgeAction::Stop);
    let topics = reg.connect_topics();
    assert_eq!(topics, vec![String::from("/bar/connect"), String::from("/rgbw1/connect")]);
}

#[test]
fn page_context_of_lamps() {
    let reg = registry();
    let mut d = LampData::default();
    d.apply("mode", "6");
    d.apply("color", "ff8000");
    let bar = reg.lamps[0].page_context(&d);
    assert_eq!(bar.activemode, 6);
    assert_eq!(bar.color, "#ff8000");
    assert_eq!(bar.url, "bar");
    assert_eq!(bar.title, "Bar");
    assert_eq!(bar.data, encode(&d));
    let tv = reg.lamps[1].page_context(&d);
    assert_eq!(tv.activemode, 0);
    assert_eq!(tv.url, "tv");
}

#[test]
fn color_hex_digits() {
    assert_eq!(color_hex((0, 10, 255)), "#000aff");
    assert_eq!(color_hex((125, 125, 0)), "#7d7d00");
}

#[test]
fn modes_from_tuple() {
    let m = Modes::from(("white", 7, "White"));
    assert_eq!(m.name, "white");
    assert_eq!(m.value, 7);
    assert_eq!(m.label, "White");
}
