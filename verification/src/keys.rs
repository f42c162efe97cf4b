//! What key presses, typed text and pasted text send to a terminal.
use crate::text::{bytes_of, chars_of, is_control, is_control_char};
use vstd::prelude::*;
use vstd::utf8::encode_utf8;

verus! {

/// A key.
#[derive(Clone, Copy, Debug, PartialEq, Eq, Structural)]
pub enum Key {
    A,
    B,
    C,
    D,
    E,
    F,
    G,
    H,
    I,
    J,
    K,
    L,
    M,
    N,
    O,
    P,
    Q,
    R,
    S,
    T,
    U,
    V,
    W,
    X,
    Y,
    Z,
    Enter,
    Tab,
    Backspace,
    Escape,
    ArrowUp,
    ArrowDown,
    ArrowRight,
    ArrowLeft,
    Home,
    End,
    Delete,
    Insert,
    PageUp,
    PageDown,
    /// Any key that sends nothing by itself.
    Other,
}

/// The modifiers held with a key.
#[derive(Clone, Copy, Debug, PartialEq, Eq, Structural)]
pub struct Modifiers {
    pub ctrl: bool,
    /// The platform's shortcut modifier.
    pub command: bool,
    /// The Command key of a Mac keyboard.
    pub mac_cmd: bool,
}

/// The place of a letter key in the alphabet, counted from one.
pub open spec fn letter_number(key: Key) -> Option<u8> {
    match key {
        Key::A => Some(1),
        Key::B => Some(2),
        Key::C => Some(3),
        Key::D => Some(4),
        Key::E => Some(5),
        Key::F => Some(6),
        Key::G => Some(7),
        Key::H => Some(8),
        Key::I => Some(9),
        Key::J => Some(10),
        Key::K => Some(11),
        Key::L => Some(12),
        Key::M => Some(13),
        Key::N => Some(14),
        Key::O => Some(15),
        Key::P => Some(16),
        Key::Q => Some(17),
        Key::R => Some(18),
        Key::S => Some(19),
        Key::T => Some(20),
        Key::U => Some(21),
        Key::V => Some(22),
        Key::W => Some(23),
        Key::X => Some(24),
        Key::Y => Some(25),
        Key::Z => Some(26),
        _ => None,
    }
}

/// The lower-case letter of a letter key.
pub fn ctrl_letter(key: Key) -> (letter: Option<u8>)
    ensures
        letter == match letter_number(key) {
            Some(n) => Some((0x60 + n) as u8),
            None => None,
        },
{
    match key {
        Key::A => Some(0x61),
        Key::B => Some(0x62),
        Key::C => Some(0x63),
        Key::D => Some(0x64),
        Key::E => Some(0x65),
        Key::F => Some(0x66),
        Key::G => Some(0x67),
        Key::H => Some(0x68),
        Key::I => Some(0x69),
        Key::J => Some(0x6a),
        Key::K => Some(0x6b),
        Key::L => Some(0x6c),
        Key::M => Some(0x6d),
        Key::N => Some(0x6e),
        Key::O => Some(0x6f),
        Key::P => Some(0x70),
        Key::Q => Some(0x71),
        Key::R => Some(0x72),
        Key::S => Some(0x73),
        Key::T => Some(0x74),
        Key::U => Some(0x75),
        Key::V => Some(0x76),
        Key::W => Some(0x77),
        Key::X => Some(0x78),
        Key::Y => Some(0x79),
        Key::Z => Some(0x7a),
        _ => None,
    }
}

/// The bytes that a key stands for by itself: the control codes of the editing
/// keys and the escape sequences of the cursor keys.
pub open spec fn plain_key(key: Key) -> Option<Seq<u8>> {
    match key {
        Key::Enter => Some(seq![0x0du8]),
        Key::Tab => Some(seq![0x09u8]),
        Key::Backspace => Some(seq![0x7fu8]),
        Key::Escape => Some(seq![0x1bu8]),
        Key::ArrowUp => Some(seq![0x1bu8, 0x5bu8, 0x41u8]),
        Key::ArrowDown => Some(seq![0x1bu8, 0x5bu8, 0x42u8]),
        Key::ArrowRight => Some(seq![0x1bu8, 0x5bu8, 0x43u8]),
        Key::ArrowLeft => Some(seq![0x1bu8, 0x5bu8, 0x44u8]),
        Key::Home => Some(seq![0x1bu8, 0x5bu8, 0x48u8]),
        Key::End => Some(seq![0x1bu8, 0x5bu8, 0x46u8]),
        Key::Delete => Some(seq![0x1bu8, 0x5bu8, 0x33u8, 0x7eu8]),
        Key::Insert => Some(seq![0x1bu8, 0x5bu8, 0x32u8, 0x7eu8]),
        Key::PageUp => Some(seq![0x1bu8, 0x5bu8, 0x35u8, 0x7eu8]),
        Key::PageDown => Some(seq![0x1bu8, 0x5bu8, 0x36u8, 0x7eu8]),
        _ => None,
    }
}

/// The bytes that a key press sends. With Ctrl, a letter sends its control
/// code, which is its place in the alphabet.
pub open spec fn key_press(key: Key, ctrl: bool) -> Option<Seq<u8>> {
    match letter_number(key) {
        Some(n) => if ctrl {
            Some(seq![n])
        } else {
            None
        },
        None => plain_key(key),
    }
}

/// The bytes that a key press sends, if it sends any.
pub fn key_to_bytes(key: Key, m: &Modifiers) -> (bytes: Option<Vec<u8>>)
    ensures
        match bytes {
            Some(bytes) => key_press(key, m.ctrl) == Some(bytes@),
            None => key_press(key, m.ctrl) is None,
        },
{
    if m.ctrl {
        if let Some(b) = ctrl_letter(key) {
            assert(0x61 <= b <= 0x7a ==> b & 0x1f == b - 0x60) by (bit_vector);
            let bytes: Vec<u8> = vec![b & 0x1f];
            assert(bytes@ =~= seq![(b - 0x60) as u8]);
            return Some(bytes);
        }
    }
    let bytes: Vec<u8> = match key {
        Key::Enter => vec![0x0d],
        Key::Tab => vec![0x09],
        Key::Backspace => vec![0x7f],
        Key::Escape => vec![0x1b],
        Key::ArrowUp => vec![0x1b, 0x5b, 0x41],
        Key::ArrowDown => vec![0x1b, 0x5b, 0x42],
        Key::ArrowRight => vec![0x1b, 0x5b, 0x43],
        Key::ArrowLeft => vec![0x1b, 0x5b, 0x44],
        Key::Home => vec![0x1b, 0x5b, 0x48],
        Key::End => vec![0x1b, 0x5b, 0x46],
        Key::Delete => vec![0x1b, 0x5b, 0x33, 0x7e],
        Key::Insert => vec![0x1b, 0x5b, 0x32, 0x7e],
        Key::PageUp => vec![0x1b, 0x5b, 0x35, 0x7e],
        Key::PageDown => vec![0x1b, 0x5b, 0x36, 0x7e],
        _ => return None,
    };
    assert(Some(bytes@) == plain_key(key)) by {
        match plain_key(key) {
            Some(want) => assert(bytes@ =~= want),
            None => {},
        }
    }
    Some(bytes)
}

/// Different key presses that send something send different bytes, but for
/// the two control codes that have a key of their own: Ctrl with I is Tab, and
/// Ctrl with M is Enter.
pub proof fn key_presses_differ(a: Key, actrl: bool, b: Key, bctrl: bool)
    requires
        a != b,
        key_press(a, actrl) is Some,
        key_press(a, actrl) == key_press(b, bctrl),
    ensures
        (a == Key::I && b == Key::Tab) || (a == Key::Tab && b == Key::I) || (a == Key::M && b
            == Key::Enter) || (a == Key::Enter && b == Key::M),
{
    let x = key_press(a, actrl)->0;
    let y = key_press(b, bctrl)->0;
    assert(x.len() == y.len());
    assert(x[0] == y[0]);
    if x.len() > 2 {
        assert(x[2] == y[2]);
    }
}

/// Something that the user put in.
pub enum InputEvent {
    /// Text was typed.
    Text(String),
    /// A key went down or up.
    Key { key: Key, pressed: bool, modifiers: Modifiers },
    /// Text was pasted.
    Paste(String),
    /// Anything else.
    Other,
}

/// A text without its control characters.
pub open spec fn printable(s: Seq<char>) -> Seq<char> {
    s.filter(|c: char| !is_control_char(c))
}

/// The bytes that an input event sends to a terminal: typed text without its
/// control characters, the bytes of a key that goes down unless it is held
/// with a shortcut modifier, pasted text as it is.
pub open spec fn event_bytes(event: InputEvent) -> Seq<u8> {
    match event {
        InputEvent::Text(text) => encode_utf8(printable(text@)),
        InputEvent::Key { key, pressed, modifiers } => if pressed && !modifiers.command
            && !modifiers.mac_cmd {
            match key_press(key, modifiers.ctrl) {
                Some(bytes) => bytes,
                None => Seq::empty(),
            }
        } else {
            Seq::empty()
        },
        InputEvent::Paste(text) => encode_utf8(text@),
        InputEvent::Other => Seq::empty(),
    }
}

/// The bytes that a row of input events sends to a terminal.
pub open spec fn input_of(events: Seq<InputEvent>) -> Seq<u8>
    decreases events.len(),
{
    if events.len() == 0 {
        Seq::empty()
    } else {
        input_of(events.drop_last()) + event_bytes(events.last())
    }
}

/// Drops the control characters of a text.
fn without_control(text: &str) -> (kept: String)
    ensures
        kept@ == printable(text@),
{
    let chars = chars_of(text);
    let mut kept = String::new();
    let mut i: usize = 0;
    let ghost keep = |c: char| !is_control_char(c);
    reveal(Seq::filter);
    while i < chars.len()
        invariant
            i <= chars@.len(),
            keep == (|c: char| !is_control_char(c)),
            kept@ =~= chars@.take(i as int).filter(keep),
        decreases chars.len() - i,
    {
        reveal(Seq::filter);
        assert(chars@.take(i + 1).drop_last() =~= chars@.take(i as int));
        if !is_control(chars[i]) {
            kept.push(chars[i]);
        }
        i += 1;
    }
    assert(chars@.take(chars@.len() as int) =~= text@);
    kept
}

/// Appends bytes to bytes.
fn push_bytes(out: &mut Vec<u8>, bytes: &Vec<u8>)
    ensures
        final(out)@ == old(out)@ + bytes@,
{
    out.extend_from_slice(bytes);
    assert(out@ =~= old(out)@ + bytes@);
}

/// The bytes that a row of input events sends to a terminal.
pub fn input_bytes(events: &Vec<InputEvent>) -> (out: Vec<u8>)
    ensures
        out@ == input_of(events@),
{
    let mut out: Vec<u8> = Vec::new();
    let mut i: usize = 0;
    while i < events.len()
        invariant
            i <= events@.len(),
            out@ =~= input_of(events@.take(i as int)),
        decreases events.len() - i,
    {
        assert(events@.take(i + 1).drop_last() =~= events@.take(i as int));
        match &events[i] {
            InputEvent::Text(text) => {
                let kept = without_control(text.as_str());
                push_bytes(&mut out, &bytes_of(kept.as_str()));
            },
            InputEvent::Key { key, pressed, modifiers } => {
                if *pressed && !modifiers.command && !modifiers.mac_cmd {
                    if let Some(bytes) = key_to_bytes(*key, modifiers) {
                        push_bytes(&mut out, &bytes);
                    }
                }
            },
            InputEvent::Paste(text) => {
                push_bytes(&mut out, &bytes_of(text.as_str()));
            },
            InputEvent::Other => {},
        }
        i += 1;
    }
    assert(events@.take(events@.len() as int) =~= events@);
    out
}

/// Typing: of any text each character is sent or dropped by itself, in order;
/// the characters from U+0000 to U+001F and from U+007F to U+009F are dropped,
/// and every other one is sent.
pub proof fn typed_characters_are_sent(a: Seq<char>, b: Seq<char>, c: char)
    ensures
        printable(a + b) == printable(a) + printable(b),
        printable(seq![c]) == if c as u32 <= 0x1f || 0x7f <= c as u32 <= 0x9f {
            Seq::<char>::empty()
        } else {
            seq![c]
        },
{
    Seq::filter_distributes_over_add(a, b, |c: char| !is_control_char(c));
    reveal(Seq::filter);
    let one = seq![c];
    assert(one.drop_last() =~= Seq::<char>::empty());
    let none = one.drop_last();
    assert(none.filter(|c: char| !is_control_char(c)) =~= Seq::<char>::empty());
    assert(printable(one) =~= if is_control_char(c) {
        Seq::<char>::empty()
    } else {
        seq![c]
    });
}

/// Typed text that holds no control character is sent whole, as UTF-8.
pub proof fn plain_typing_is_sent_whole(text: String)
    requires
        forall|i: int|
            0 <= i < text@.len() ==> {
                let u = #[trigger] text@[i] as u32;
                0x20 <= u < 0x7f || u > 0x9f
            },
    ensures
        event_bytes(InputEvent::Text(text)) == encode_utf8(text@),
{
    printable_text_stays(text@);
}

proof fn printable_text_stays(s: Seq<char>)
    requires
        forall|i: int|
            0 <= i < s.len() ==> {
                let u = #[trigger] s[i] as u32;
                0x20 <= u < 0x7f || u > 0x9f
            },
    ensures
        printable(s) == s,
    decreases s.len(),
{
    reveal(Seq::filter);
    if s.len() > 0 {
        let front = s.drop_last();
        assert forall|i: int| 0 <= i < front.len() implies {
            let u = #[trigger] front[i] as u32;
            0x20 <= u < 0x7f || u > 0x9f
        } by {
            assert(front[i] == s[i]);
        }
        printable_text_stays(front);
        assert(!is_control_char(s[s.len() - 1]));
        assert(front.push(s.last()) =~= s);
    }
}

/// Typed text of which something is dropped sends what is left, as UTF-8.
pub proof fn typing_sends_what_is_left(text: String)
    ensures
        event_bytes(InputEvent::Text(text)) == encode_utf8(printable(text@)),
{
}

/// Pasted text is sent as it is, with its line ends and all other control
/// characters.
pub proof fn pasting_sends_everything(text: String)
    ensures
        event_bytes(InputEvent::Paste(text)) == encode_utf8(text@),
        vstd::utf8::decode_utf8(event_bytes(InputEvent::Paste(text))) == text@,
{
    vstd::utf8::encode_utf8_decode_utf8(text@);
}

/// A key sends something only when it goes down, without a shortcut modifier;
/// it then sends what the key is for.
pub proof fn only_plain_presses_send(key: Key, pressed: bool, modifiers: Modifiers)
    ensures
        ({
            let sent = event_bytes(InputEvent::Key { key, pressed, modifiers });
            &&& !pressed || modifiers.command || modifiers.mac_cmd ==> sent.len() == 0
            &&& pressed && !modifiers.command && !modifiers.mac_cmd ==> match key_press(
                key,
                modifiers.ctrl,
            ) {
                Some(bytes) => sent == bytes && sent.len() > 0,
                None => sent.len() == 0,
            }
        }),
        event_bytes(InputEvent::Other).len() == 0,
{
}

/// Events are sent one after the other, in the order in which they came, and
/// none is lost or sent twice.
pub proof fn input_is_sent_in_order(a: Seq<InputEvent>, b: Seq<InputEvent>, event: InputEvent)
    ensures
        input_of(a + b) == input_of(a) + input_of(b),
        input_of(seq![event]) == event_bytes(event),
    decreases b.len(),
{
    let one = seq![event];
    assert(one.drop_last() =~= Seq::<InputEvent>::empty());
    assert(input_of(one.drop_last()) =~= Seq::<u8>::empty());
    assert(input_of(one) =~= event_bytes(event));
    if b.len() == 0 {
        assert(a + b =~= a);
        assert(input_of(a) + input_of(b) =~= input_of(a));
    } else {
        input_is_sent_in_order(a, b.drop_last(), event);
        assert((a + b).drop_last() =~= a + b.drop_last());
        assert(input_of(a + b) =~= input_of(a) + input_of(b));
    }
}

/// Ctrl and a letter send one control code. The codes of two letters lie as far
/// apart as the letters do in the alphabet, and A has the first. A letter alone
/// sends nothing as a key: it arrives as typed text. All other keys send the
/// same with and without Ctrl.
pub proof fn control_codes_follow_the_alphabet(key: Key)
    ensures
        key_press(Key::A, true) == Some(seq![1u8]),
        key_press(Key::Z, true) == Some(seq![26u8]),
        letter_number(key) matches Some(n) ==> 1 <= n <= 26 && key_press(key, true) == Some(
            seq![n],
        ) && key_press(key, false) is None,
        letter_number(key) is None ==> key_press(key, true) == key_press(key, false),
{
}

} // verus!
