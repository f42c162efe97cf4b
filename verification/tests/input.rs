use rs_term::color::{ansi_256, to_color, Rgb, TermColor};
use rs_term::geometry::{Area, Point, Scalar};
use rs_term::keys::{ctrl_letter, input_bytes, key_to_bytes, InputEvent, Key, Modifiers};

const NONE: Modifiers = Modifiers { ctrl: false, command: false, mac_cmd: false };
const CTRL: Modifiers = Modifiers { ctrl: true, command: false, mac_cmd: false };

const LETTERS: [Key; 26] = [
    Key::A, Key::B, Key::C, Key::D, Key::E, Key::F, Key::G, Key::H, Key::I, Key::J, Key::K, Key::L,
    Key::M, Key::N, Key::O, Key::P, Key::Q, Key::R, Key::S, Key::T, Key::U, Key::V, Key::W, Key::X,
    Key::Y, Key::Z,
];

#[test]
fn control_letters() {
    for (i, key) in LETTERS.iter().enumerate() {
        let letter = b'a' + i as u8;
        assert_eq!(ctrl_letter(*key), Some(letter));
        assert_eq!(key_to_bytes(*key, &CTRL), Some(vec![letter & 0x1f]));
        // Without Ctrl a letter arrives as typed text.
        assert_eq!(key_to_bytes(*key, &NONE), None);
    }
    assert_eq!(ctrl_letter(Key::Enter), None);
}

#[test]
fn named_keys() {
    let table: [(Key, &[u8]); 14] = [
        (Key::Enter, b"\r"),
        (Key::Tab, b"\t"),
        (Key::Backspace, b"\x7f"),
        (Key::Escape, b"\x1b"),
        (Key::ArrowUp, b"\x1b[A"),
        (Key::ArrowDown, b"\x1b[B"),
        (Key::ArrowRight, b"\x1b[C"),
        (Key::ArrowLeft, b"\x1b[D"),
        (Key::Home, b"\x1b[H"),
        (Key::End, b"\x1b[F"),
        (Key::Delete, b"\x1b[3~"),
        (Key::Insert, b"\x1b[2~"),
        (Key::PageUp, b"\x1b[5~"),
        (Key::PageDown, b"\x1b[6~"),
    ];
    for (key, bytes) in table {
        assert_eq!(key_to_bytes(key, &NONE), Some(bytes.to_vec()));
        assert_eq!(key_to_bytes(key, &CTRL), Some(bytes.to_vec()));
    }
    assert_eq!(key_to_bytes(Key::Other, &CTRL), None);
}

#[test]
fn only_two_control_codes_have_a_key_of_their_own() {
    assert_eq!(key_to_bytes(Key::I, &CTRL), key_to_bytes(Key::Tab, &NONE));
    assert_eq!(key_to_bytes(Key::M, &CTRL), key_to_bytes(Key::Enter, &NONE));
    assert_ne!(key_to_bytes(Key::H, &CTRL), key_to_bytes(Key::Backspace, &NONE));
}

fn press(key: Key, modifiers: Modifiers) -> InputEvent {
    InputEvent::Key { key, pressed: true, modifiers }
}

#[test]
fn events_in_order() {
    let command = Modifiers { ctrl: false, command: true, mac_cmd: false };
    let mac = Modifiers { ctrl: true, command: false, mac_cmd: true };
    let events = vec![
        InputEvent::Text("l\u{7}s\u{85}ä".to_string()),
        press(Key::Enter, NONE),
        InputEvent::Key { key: Key::Tab, pressed: false, modifiers: NONE },
        press(Key::Enter, command),
        press(Key::C, mac),
        press(Key::C, CTRL),
        InputEvent::Paste("a\nb".to_string()),
        InputEvent::Other,
    ];
    assert_eq!(input_bytes(&events), "lsä\r\u{3}a\nb".as_bytes().to_vec());
    assert_eq!(input_bytes(&Vec::new()), Vec::<u8>::new());
}

fn rgb(r: u8, g: u8, b: u8) -> Rgb {
    Rgb { r, g, b }
}

#[test]
fn palette_entries() {
    assert_eq!(ansi_256(0), rgb(0x1e, 0x1e, 0x1e));
    assert_eq!(ansi_256(1), rgb(0xcd, 0x31, 0x31));
    assert_eq!(ansi_256(8), rgb(0x66, 0x66, 0x66));
    assert_eq!(ansi_256(15), rgb(0xff, 0xff, 0xff));
    assert_eq!(ansi_256(16), rgb(0, 0, 0));
    assert_eq!(ansi_256(16 + 36 * 1 + 6 * 2 + 3), rgb(95, 135, 175));
    assert_eq!(ansi_256(231), rgb(255, 255, 255));
    assert_eq!(ansi_256(232), rgb(8, 8, 8));
    assert_eq!(ansi_256(255), rgb(238, 238, 238));
    for a in 16..232u8 {
        for b in 16..a {
            assert_ne!(ansi_256(a), ansi_256(b));
        }
    }
}

#[test]
fn colors_of_programs() {
    let own = rgb(1, 2, 3);
    assert_eq!(to_color(TermColor::Default, own), own);
    assert_eq!(to_color(TermColor::Idx(9), own), rgb(0xf1, 0x4c, 0x4c));
    assert_eq!(to_color(TermColor::Rgb(4, 5, 6), own), rgb(4, 5, 6));
}

fn s(x: f32) -> Scalar {
    Scalar { bits: x.to_bits() }
}

const SAMPLES: [f32; 16] = [
    0.0, -0.0, 1.0, -1.0, 0.2, 3.0, 0.19, 3.1, 200.0, 140.0, 1e-40, -1e30, f32::MAX, f32::MIN,
    f32::INFINITY, f32::NEG_INFINITY,
];

#[test]
fn numbers_compare_by_their_bits() {
    for a in SAMPLES {
        for b in SAMPLES {
            assert_eq!(s(a).le(s(b)), a <= b);
        }
        assert!(!s(a).is_nan());
        assert!(!s(a).le(s(f32::NAN)) && !s(f32::NAN).le(s(a)));
        assert_eq!(s(a).clamp(s(0.2), s(3.0)), s(a.clamp(0.2, 3.0)));
        assert_eq!(s(a).at_least(s(200.0)), s(a.max(200.0)));
    }
    assert!(s(f32::NAN).is_nan() && s(-f32::NAN).is_nan());
    assert!(s(f32::NAN).clamp(s(0.2), s(3.0)).is_nan());
    assert_eq!(s(f32::NAN).at_least(s(140.0)), s(140.0));
}

#[test]
fn areas_hold_their_edges() {
    let p = |x: f32, y: f32| Point { x: s(x), y: s(y) };
    let area = Area { min: p(-1.0, 2.0), max: p(3.0, 5.0) };
    assert!(area.contains(p(-1.0, 2.0)));
    assert!(area.contains(p(3.0, 5.0)));
    assert!(area.contains(p(-0.0, 3.0)));
    assert!(!area.contains(p(3.1, 3.0)));
    assert!(!area.contains(p(0.0, 1.9)));
    assert!(!area.contains(p(f32::NAN, 3.0)));
}
