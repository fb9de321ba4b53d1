use gb_emu::bus::Joypad;
use gb_emu::input::{record_line, InputScript};

fn chars(s: &str) -> Vec<char> {
    s.chars().collect()
}

#[test]
fn recorded_line_replays_as_script() {
    let j = Joypad { a: true, b: false, select: false, start: true, up: false, down: true, left: false, right: true };
    let line = record_line(&j);
    assert_eq!(line, "10011001");
    let mut text = line.clone();
    text.push('\n');
    let script = InputScript::parse(&chars(&text));
    let mut out = Joypad { a: false, b: true, select: true, start: false, up: true, down: false, left: true, right: false };
    script.apply(0, &mut out);
    assert_eq!(out, j);
}

use gb_emu::input::{
    char_is_space, frame_control, joypad_from_input, should_stop, turbo_faster, turbo_slower, Keys, PadButton,
    PadState,
};

fn no_keys() -> Keys {
    Keys {
        w: false, q: false, enter: false, e: false, up: false, down: false, left: false, right: false,
        f5: false, f9: false, f2_pressed: false, f3_pressed: false,
    }
}

#[test]
fn script_skips_comments_and_blank_lines() {
    let text = "# header\n10000000\r\n\n   \n  01000001  \n#00000000\n1\n11111111";
    let script = InputScript::parse(&chars(text));
    assert_eq!(script.frames.len(), 4);
    assert_eq!(script.frames[0], [true, false, false, false, false, false, false, false]);
    assert_eq!(script.frames[1], [false, true, false, false, false, false, false, true]);
    assert_eq!(script.frames[2], [true, false, false, false, false, false, false, false]);
    assert_eq!(script.frames[3], [true; 8]);
}

#[test]
fn script_frames_past_the_end_release_everything() {
    let script = InputScript::parse(&chars("11111111\n"));
    let mut j = Joypad { a: true, b: true, select: true, start: true, up: true, down: true, left: true, right: true };
    script.apply(1, &mut j);
    assert_eq!(j, Joypad::default());
    script.apply(0, &mut j);
    assert!(j.a && j.start && j.right);
}

#[test]
fn empty_script_has_no_frames() {
    assert_eq!(InputScript::parse(&chars("")).frames.len(), 0);
    assert_eq!(InputScript::parse(&chars("\n\n# only comments\n")).frames.len(), 0);
}

#[test]
fn unicode_white_space_is_trimmed() {
    assert!(char_is_space('\u{3000}'));
    assert!(char_is_space('\u{2009}'));
    assert!(!char_is_space('1'));
    let script = InputScript::parse(&chars("\u{3000}1\u{A0}"));
    assert_eq!(script.frames[0][0], true);
    assert_eq!(script.frames[0][1], false);
}

#[test]
fn keyboard_and_pad_map_to_buttons() {
    let mut keys = no_keys();
    keys.w = true;
    keys.enter = true;
    keys.left = true;
    let mut pad = PadState::default();
    pad.set_button(PadButton::East, true);
    pad.set_button(PadButton::DPadDown, true);
    pad.set_button(PadButton::Other, true);
    let j = joypad_from_input(&keys, &pad);
    assert_eq!(j, Joypad { a: true, b: true, select: false, start: true, up: false, down: true, left: true, right: false });
    pad.set_button(PadButton::East, false);
    assert!(!pad.b);
}

#[test]
fn turbo_doubles_and_halves() {
    assert_eq!(turbo_faster(None), Some(2));
    assert_eq!(turbo_faster(Some(4)), Some(8));
    assert_eq!(turbo_slower(Some(8)), Some(4));
    assert_eq!(turbo_slower(Some(1)), None);
    assert_eq!(turbo_slower(None), None);
    assert_eq!(turbo_slower(turbo_faster(Some(5))), Some(5));
}

#[test]
fn run_stops_on_window_close_or_frame_count() {
    assert!(should_stop(false, false, None, 0));
    assert!(!should_stop(true, false, None, 0));
    assert!(should_stop(true, true, Some(10), 10));
    assert!(!should_stop(true, true, Some(10), 9));
    assert!(!should_stop(false, true, None, 1_000_000));
}

#[test]
fn frame_control_follows_script_or_keys() {
    let script = InputScript::parse(&chars("00001000\n"));
    let pad = PadState::default();
    let mut keys = no_keys();
    keys.f5 = true;
    keys.f3_pressed = true;
    let c = frame_control(Some(&script), 0, false, &keys, &pad, Joypad::default(), None);
    assert!(c.joypad.a && !c.save_state && c.turbo.is_none());
    let c = frame_control(None, 0, false, &keys, &pad, Joypad::default(), Some(2));
    assert!(c.save_state && !c.load_state);
    assert_eq!(c.turbo, Some(4));
    let held = Joypad { a: true, ..Joypad::default() };
    let c = frame_control(None, 0, true, &keys, &pad, held, Some(2));
    assert_eq!(c.joypad, held);
    assert!(!c.save_state);
    assert_eq!(c.turbo, Some(2));
}
