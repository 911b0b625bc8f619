//! Key presses as the bytes that a terminal sends for them.
use vstd::prelude::*;
use vstd::utf8::encode_utf8;

use crate::bytes::append_bytes;

verus! {

/// A key of the console.
#[derive(Debug, Clone, Copy, PartialEq, Eq, Structural)]
pub enum KeyCode {
    Char(char),
    Enter,
    Tab,
    BackTab,
    Backspace,
    Esc,
    Up,
    Down,
    Right,
    Left,
    Home,
    End,
    PageUp,
    PageDown,
    Insert,
    Delete,
    F(u8),
    /// A key for which a terminal sends nothing.
    Silent,
}

/// What happened to a key.
#[derive(Debug, Clone, Copy, PartialEq, Eq, Structural)]
pub enum KeyEventKind {
    Press,
    Repeat,
    Release,
}

/// A key event of the console, with the modifiers that a terminal sends.
#[derive(Debug, Clone, Copy, PartialEq, Eq, Structural)]
pub struct KeyEvent {
    pub code: KeyCode,
    pub control: bool,
    pub alt: bool,
    pub kind: KeyEventKind,
}

/// The control byte of a character, where it has one: a letter or one of
/// `@[\]^_` gives the byte of its place in the alphabet that starts at `@`.
pub open spec fn control_byte(c: char) -> Option<u8> {
    if c == ' ' {
        Some(0u8)
    } else if '@' <= c <= '_' {
        Some((c as int - '@' as int) as u8)
    } else if 'a' <= c <= 'z' {
        Some((c as int - 'a' as int + 1) as u8)
    } else if c == '?' {
        Some(0x7fu8)
    } else {
        None
    }
}

/// `ESC [` and a letter.
pub open spec fn arrow(letter: char) -> Seq<u8> {
    seq![0x1bu8, 0x5bu8, letter as u8]
}

/// `ESC [`, a number below ten and `~`.
pub open spec fn editing(number: int) -> Seq<u8> {
    seq![0x1bu8, 0x5bu8, (0x30 + number) as u8, 0x7eu8]
}

/// The number in the sequence of a function key from `F5` on. There is no
/// 16 and no 22 among them.
pub open spec fn function_code(number: u8) -> int {
    if number == 5 {
        15
    } else if number <= 10 {
        number + 11
    } else {
        number + 12
    }
}

/// The bytes of a function key.
pub open spec fn function_bytes(number: u8) -> Seq<u8> {
    if 1 <= number <= 4 {
        seq![0x1bu8, 0x4fu8, (0x50 + number - 1) as u8]
    } else if 5 <= number <= 12 {
        let code = function_code(number);
        seq![0x1bu8, 0x5bu8, (0x30 + code / 10) as u8, (0x30 + code % 10) as u8, 0x7eu8]
    } else {
        Seq::empty()
    }
}

/// The bytes of a key without the prefix for Alt.
pub open spec fn code_bytes(code: KeyCode, control: bool) -> Seq<u8> {
    match code {
        KeyCode::Char(c) => if control && control_byte(c) is Some {
            seq![control_byte(c)->0]
        } else {
            encode_utf8(seq![c])
        },
        KeyCode::Enter => seq![0x0du8],
        KeyCode::Tab => seq![0x09u8],
        KeyCode::BackTab => arrow('Z'),
        KeyCode::Backspace => seq![0x7fu8],
        KeyCode::Esc => seq![0x1bu8],
        KeyCode::Up => arrow('A'),
        KeyCode::Down => arrow('B'),
        KeyCode::Right => arrow('C'),
        KeyCode::Left => arrow('D'),
        KeyCode::Home => arrow('H'),
        KeyCode::End => arrow('F'),
        KeyCode::PageUp => editing(5),
        KeyCode::PageDown => editing(6),
        KeyCode::Insert => editing(2),
        KeyCode::Delete => editing(3),
        KeyCode::F(number) => function_bytes(number),
        KeyCode::Silent => Seq::empty(),
    }
}

/// The bytes of a key event: nothing for a key that is let go, and an escape
/// in front of what is typed with Alt.
pub open spec fn sent_for(key: KeyEvent) -> Seq<u8> {
    let bytes = code_bytes(key.code, key.control);
    if key.kind is Release {
        Seq::empty()
    } else if key.alt && bytes.len() > 0 {
        seq![0x1bu8] + bytes
    } else {
        bytes
    }
}

fn control_code(c: char) -> (r: Option<u8>)
    ensures
        r == control_byte(c),
{
    if c == ' ' {
        Some(0)
    } else if c >= '@' && c <= '_' {
        Some((c as u32 - 64) as u8)
    } else if c >= 'a' && c <= 'z' {
        Some((c as u32 - 96) as u8)
    } else if c == '?' {
        Some(0x7f)
    } else {
        None
    }
}

fn push_arrow(out: &mut Vec<u8>, letter: u8)
    requires
        letter < 128,
    ensures
        final(out)@ == old(out)@ + arrow(letter as char),
{
    out.push(0x1b);
    out.push(0x5b);
    out.push(letter);
    assert(out@ =~= old(out)@ + arrow(letter as char));
}

fn push_editing(out: &mut Vec<u8>, number: u8)
    requires
        number < 10,
    ensures
        final(out)@ == old(out)@ + editing(number as int),
{
    out.push(0x1b);
    out.push(0x5b);
    out.push(0x30 + number);
    out.push(0x7e);
    assert(out@ =~= old(out)@ + editing(number as int));
}

fn push_function(out: &mut Vec<u8>, number: u8)
    ensures
        final(out)@ == old(out)@ + function_bytes(number),
{
    if number >= 1 && number <= 4 {
        out.push(0x1b);
        out.push(0x4f);
        out.push(0x50 + (number - 1));
    } else if number >= 5 && number <= 12 {
        let code: u8 = if number == 5 {
            15
        } else if number <= 10 {
            number + 11
        } else {
            number + 12
        };
        out.push(0x1b);
        out.push(0x5b);
        out.push(0x30 + code / 10);
        out.push(0x30 + code % 10);
        out.push(0x7e);
    }
    assert(out@ =~= old(out)@ + function_bytes(number));
}

fn push_char(out: &mut Vec<u8>, c: char)
    ensures
        final(out)@ == old(out)@ + encode_utf8(seq![c]),
{
    let mut text = String::new();
    text.push(c);
    assert(text@ =~= seq![c]);
    append_bytes(out, text.as_str().as_bytes());
}

fn push_code(out: &mut Vec<u8>, code: KeyCode, control: bool)
    ensures
        final(out)@ == old(out)@ + code_bytes(code, control),
{
    match code {
        KeyCode::Char(c) => match control_code(c) {
            Some(byte) => {
                if control {
                    out.push(byte);
                } else {
                    push_char(out, c);
                }
            },
            None => push_char(out, c),
        },
        KeyCode::Enter => out.push(0x0d),
        KeyCode::Tab => out.push(0x09),
        KeyCode::BackTab => push_arrow(out, 0x5a),
        KeyCode::Backspace => out.push(0x7f),
        KeyCode::Esc => out.push(0x1b),
        KeyCode::Up => push_arrow(out, 0x41),
        KeyCode::Down => push_arrow(out, 0x42),
        KeyCode::Right => push_arrow(out, 0x43),
        KeyCode::Left => push_arrow(out, 0x44),
        KeyCode::Home => push_arrow(out, 0x48),
        KeyCode::End => push_arrow(out, 0x46),
        KeyCode::PageUp => push_editing(out, 5),
        KeyCode::PageDown => push_editing(out, 6),
        KeyCode::Insert => push_editing(out, 2),
        KeyCode::Delete => push_editing(out, 3),
        KeyCode::F(number) => push_function(out, number),
        KeyCode::Silent => {},
    }
    assert(out@ =~= old(out)@ + code_bytes(code, control));
}

/// The bytes to send for a key event.
pub fn key_bytes(key: &KeyEvent) -> (bytes: Vec<u8>)
    ensures
        bytes@ == sent_for(*key),
{
    let mut bytes: Vec<u8> = Vec::new();
    match key.kind {
        KeyEventKind::Release => {
            return bytes;
        },
        _ => {},
    }
    push_code(&mut bytes, key.code, key.control);
    assert(bytes@ =~= code_bytes(key.code, key.control));
    if key.alt && bytes.len() > 0 {
        let mut prefixed: Vec<u8> = Vec::new();
        prefixed.push(0x1b);
        append_bytes(&mut prefixed, bytes.as_slice());
        assert(prefixed@ =~= seq![0x1bu8] + code_bytes(key.code, key.control));
        return prefixed;
    }
    bytes
}

/// Keys send what terminals send for them: a key that is let go nothing, one
/// with Alt an escape in front of its own, a character itself, and Ctrl with a
/// letter the letter's place in the alphabet, whatever its case.
pub proof fn characters_are_sent(key: &KeyEvent, bytes: Vec<u8>)
    requires
        call_ensures(key_bytes, (key,), bytes),
    ensures
        key.kind is Release ==> bytes@.len() == 0,
        !(key.kind is Release) && (key.code matches KeyCode::Char(c) && !key.control && !key.alt)
            ==> bytes@ == encode_utf8(seq![key.code->Char_0]),
        !(key.kind is Release) && (key.code matches KeyCode::Char(c) && !key.control && key.alt
            && encode_utf8(seq![c]).len() > 0) ==> bytes@ == seq![0x1bu8] + encode_utf8(
            seq![key.code->Char_0],
        ),
        !(key.kind is Release) && !key.alt && (key.code matches KeyCode::Char(c) && key.control
            && 'a' <= c <= 'z') ==> bytes@ == seq![(key.code->Char_0 as int - 96) as u8],
        !(key.kind is Release) && !key.alt && (key.code matches KeyCode::Char(c) && key.control
            && 'A' <= c <= 'Z') ==> bytes@ == seq![(key.code->Char_0 as int - 64) as u8],
        !(key.kind is Release) && !key.alt && (key.code matches KeyCode::Char(c) && key.control
            && '0' <= c <= '9') ==> bytes@ == encode_utf8(seq![key.code->Char_0]),
        key.code == KeyCode::Silent ==> bytes@.len() == 0,
{
}

/// The keys that are no characters send their own sequences, with Alt behind
/// an escape.
pub proof fn other_keys_send_their_sequences(key: &KeyEvent, bytes: Vec<u8>)
    requires
        call_ensures(key_bytes, (key,), bytes),
        !(key.kind is Release),
    ensures
        ({
            let sent = if key.alt {
                bytes@.skip(1)
            } else {
                bytes@
            };
            let begun = key.alt ==> bytes@.len() > 0 && bytes@[0] == 0x1bu8;
            match key.code {
                KeyCode::Enter => begun && sent == seq![0x0du8],
                KeyCode::Tab => begun && sent == seq![0x09u8],
                KeyCode::BackTab => begun && sent == seq![0x1bu8, 0x5bu8, 0x5au8],
                KeyCode::Backspace => begun && sent == seq![0x7fu8],
                KeyCode::Esc => begun && sent == seq![0x1bu8],
                KeyCode::Up => begun && sent == seq![0x1bu8, 0x5bu8, 0x41u8],
                KeyCode::Down => begun && sent == seq![0x1bu8, 0x5bu8, 0x42u8],
                KeyCode::Right => begun && sent == seq![0x1bu8, 0x5bu8, 0x43u8],
                KeyCode::Left => begun && sent == seq![0x1bu8, 0x5bu8, 0x44u8],
                KeyCode::Home => begun && sent == seq![0x1bu8, 0x5bu8, 0x48u8],
                KeyCode::End => begun && sent == seq![0x1bu8, 0x5bu8, 0x46u8],
                KeyCode::PageUp => begun && sent == seq![0x1bu8, 0x5bu8, 0x35u8, 0x7eu8],
                KeyCode::PageDown => begun && sent == seq![0x1bu8, 0x5bu8, 0x36u8, 0x7eu8],
                KeyCode::Insert => begun && sent == seq![0x1bu8, 0x5bu8, 0x32u8, 0x7eu8],
                KeyCode::Delete => begun && sent == seq![0x1bu8, 0x5bu8, 0x33u8, 0x7eu8],
                _ => true,
            }
        }),
{
    let own = code_bytes(key.code, key.control);
    if key.alt && own.len() > 0 {
        assert(bytes@.skip(1) =~= own);
    }
}

/// Function keys count on: `F1` to `F4` are the letters from `P` on, and the
/// others numbers that grow with them, with the two gaps that terminals have.
pub proof fn function_keys_count_on(number: u8)
    ensures
        1 <= number <= 4 ==> function_bytes(number) == seq![0x1bu8, 0x4fu8, (0x4f + number) as u8],
        number == 5 ==> function_bytes(number) == seq![0x1bu8, 0x5bu8, 0x31u8, 0x35u8, 0x7eu8],
        6 <= number <= 8 ==> function_bytes(number) == seq![
            0x1bu8,
            0x5bu8,
            0x31u8,
            (0x31 + number) as u8,
            0x7eu8,
        ],
        9 <= number <= 10 ==> function_bytes(number) == seq![
            0x1bu8,
            0x5bu8,
            0x32u8,
            (0x27 + number) as u8,
            0x7eu8,
        ],
        11 <= number <= 12 ==> function_bytes(number) == seq![
            0x1bu8,
            0x5bu8,
            0x32u8,
            (0x28 + number) as u8,
            0x7eu8,
        ],
        number == 0 || number > 12 ==> function_bytes(number).len() == 0,
{
}

} // verus!
