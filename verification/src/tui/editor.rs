//! The bytes a key sends to the embedded editor's terminal: a
//! character as UTF-8 (or its control code under Control), the named
//! keys as their escape sequences, Alt as a leading escape. Running the
//! editor in its pseudo-terminal is the caller's I/O.
use vstd::prelude::*;

use crate::text::{ascii_lower, ascii_lower_char};
use crate::tui::keys::{KeyCode, KeyPress};

verus! {

/// The escape byte.
pub const ESC: u8 = 27;

/// The sequence a named key sends; keys without one send nothing.
pub open spec fn named_bytes(code: KeyCode) -> Seq<u8> {
    match code {
        KeyCode::Enter => seq![13u8],
        KeyCode::Esc => seq![27u8],
        KeyCode::Backspace => seq![127u8],
        KeyCode::Tab => seq![9u8],
        KeyCode::BackTab => seq![27u8, 91u8, 90u8],
        KeyCode::Up => seq![27u8, 91u8, 65u8],
        KeyCode::Down => seq![27u8, 91u8, 66u8],
        KeyCode::Right => seq![27u8, 91u8, 67u8],
        KeyCode::Left => seq![27u8, 91u8, 68u8],
        KeyCode::Home => seq![27u8, 91u8, 72u8],
        KeyCode::End => seq![27u8, 91u8, 70u8],
        KeyCode::Insert => seq![27u8, 91u8, 50u8, 126u8],
        KeyCode::Delete => seq![27u8, 91u8, 51u8, 126u8],
        KeyCode::PageUp => seq![27u8, 91u8, 53u8, 126u8],
        KeyCode::PageDown => seq![27u8, 91u8, 54u8, 126u8],
        _ => Seq::empty(),
    }
}

/// The UTF-8 encoding of a character.
pub open spec fn utf8_of(c: char) -> Seq<u8> {
    let n = c as int;
    if n < 0x80 {
        seq![n as u8]
    } else if n < 0x800 {
        seq![(0xC0 + n / 64) as u8, (0x80 + n % 64) as u8]
    } else if n < 0x10000 {
        seq![(0xE0 + n / 4096) as u8, (0x80 + (n / 64) % 64) as u8, (0x80 + n % 64) as u8]
    } else {
        seq![
            (0xF0 + n / 262144) as u8,
            (0x80 + (n / 4096) % 64) as u8,
            (0x80 + (n / 64) % 64) as u8,
            (0x80 + n % 64) as u8,
        ]
    }
}

/// Control with a character: the low five bits of its ASCII lowercase,
/// or nothing for a character outside ASCII.
pub open spec fn ctrl_of(c: char) -> Seq<u8> {
    let l = ascii_lower(c) as int;
    if l < 128 {
        seq![(l % 32) as u8]
    } else {
        Seq::empty()
    }
}

/// What a key sends before Alt is considered.
pub open spec fn base_of(key: KeyPress) -> Seq<u8> {
    match key.code {
        KeyCode::Char(c) => if key.control {
            ctrl_of(c)
        } else {
            utf8_of(c)
        },
        other => named_bytes(other),
    }
}

/// What a key sends: Alt puts an escape before a key that sends
/// anything at all.
pub open spec fn encoded(key: KeyPress) -> Seq<u8> {
    let base = base_of(key);
    if base.len() > 0 && key.alt {
        seq![ESC] + base
    } else {
        base
    }
}

fn utf8_bytes(c: char) -> (r: Vec<u8>)
    ensures
        r@ == utf8_of(c),
{
    let n: u32 = c as u32;
    let mut r: Vec<u8> = Vec::new();
    if n < 0x80 {
        r.push(n as u8);
    } else if n < 0x800 {
        r.push((0xC0 + n / 64) as u8);
        r.push((0x80 + n % 64) as u8);
    } else if n < 0x10000 {
        r.push((0xE0 + n / 4096) as u8);
        r.push((0x80 + (n / 64) % 64) as u8);
        r.push((0x80 + n % 64) as u8);
    } else {
        assert(n <= 0x10FFFF);
        r.push((0xF0 + n / 262144) as u8);
        r.push((0x80 + (n / 4096) % 64) as u8);
        r.push((0x80 + (n / 64) % 64) as u8);
        r.push((0x80 + n % 64) as u8);
    }
    assert(r@ =~= utf8_of(c));
    r
}

fn ctrl_bytes(c: char) -> (r: Vec<u8>)
    ensures
        r@ == ctrl_of(c),
{
    let l: u32 = ascii_lower_char(c) as u32;
    let mut r: Vec<u8> = Vec::new();
    if l < 128 {
        r.push((l % 32) as u8);
    }
    assert(r@ =~= ctrl_of(c));
    r
}

fn named(code: KeyCode) -> (r: Vec<u8>)
    ensures
        r@ == named_bytes(code),
{
    let r: Vec<u8> = match code {
        KeyCode::Enter => vec![13u8],
        KeyCode::Esc => vec![27u8],
        KeyCode::Backspace => vec![127u8],
        KeyCode::Tab => vec![9u8],
        KeyCode::BackTab => vec![27u8, 91u8, 90u8],
        KeyCode::Up => vec![27u8, 91u8, 65u8],
        KeyCode::Down => vec![27u8, 91u8, 66u8],
        KeyCode::Right => vec![27u8, 91u8, 67u8],
        KeyCode::Left => vec![27u8, 91u8, 68u8],
        KeyCode::Home => vec![27u8, 91u8, 72u8],
        KeyCode::End => vec![27u8, 91u8, 70u8],
        KeyCode::Insert => vec![27u8, 91u8, 50u8, 126u8],
        KeyCode::Delete => vec![27u8, 91u8, 51u8, 126u8],
        KeyCode::PageUp => vec![27u8, 91u8, 53u8, 126u8],
        KeyCode::PageDown => vec![27u8, 91u8, 54u8, 126u8],
        _ => Vec::new(),
    };
    assert(r@ =~= named_bytes(code));
    r
}

/// The bytes `key` sends to the editor's terminal.
pub fn encode_key(key: KeyPress) -> (r: Vec<u8>)
    ensures
        r@ == encoded(key),
{
    let base = match key.code {
        KeyCode::Char(c) => if key.control {
            ctrl_bytes(c)
        } else {
            utf8_bytes(c)
        },
        other => named(other),
    };
    if base.len() > 0 && key.alt {
        let mut out: Vec<u8> = vec![ESC];
        let mut i: usize = 0;
        while i < base.len()
            invariant
                i <= base.len(),
                out@ == seq![ESC] + base@.take(i as int),
            decreases base.len() - i,
        {
            out.push(base[i]);
            assert(base@.take(i + 1) =~= base@.take(i as int).push(base@[i as int]));
            i = i + 1;
        }
        assert(base@.take(base.len() as int) =~= base@);
        out
    } else {
        base
    }
}

} // verus!
