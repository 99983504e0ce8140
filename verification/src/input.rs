//! The operator's control surface, as plain values: key presses and
//! terminal resizes, and the byte encodings forwarded to a child for each
//! key.

use vstd::prelude::*;

verus! {

/// One key press from the host terminal.
pub enum KeyPress {
    /// A character key, and whether Control was held with it.
    Char(char, bool),
    /// The Enter key.
    Enter,
    /// The Backspace key.
    Backspace,
    /// The left arrow.
    Left,
    /// The right arrow.
    Right,
    /// The up arrow.
    Up,
    /// The down arrow.
    Down,
}

/// An external event the supervisor reacts to.
pub enum TermEvent {
    /// A key press.
    Key(KeyPress),
    /// The host terminal now measures the given rows and columns.
    Resize(u16, u16),
}

/// Whether the supervisor keeps running after an event.
#[derive(Debug, Clone, Copy, PartialEq, Eq)]
pub enum Step {
    /// Keep running.
    Continue,
    /// Shut down cleanly.
    Quit,
}

/// The UTF-8 encoding of one character: the bytes forwarded to the focused
/// child when its key is pressed.
pub open spec fn utf8_encode(c: char) -> Seq<u8> {
    let u = c as u32;
    if u < 0x80 {
        seq![u as u8]
    } else if u < 0x800 {
        seq![(0xC0 + u / 0x40) as u8, (0x80 + u % 0x40) as u8]
    } else if u < 0x10000 {
        seq![(0xE0 + u / 0x1000) as u8, (0x80 + (u / 0x40) % 0x40) as u8, (0x80 + u % 0x40) as u8]
    } else {
        seq![
            (0xF0 + u / 0x40000) as u8,
            (0x80 + (u / 0x1000) % 0x40) as u8,
            (0x80 + (u / 0x40) % 0x40) as u8,
            (0x80 + u % 0x40) as u8,
        ]
    }
}

/// Encodes one character as the UTF-8 bytes a character key forwards.
pub fn encode_char(c: char) -> (r: Vec<u8>)
    ensures
        r@ == utf8_encode(c),
{
    let u = c as u32;
    proof {
        assert(u < 0x110000);
        assert(u / 0x40 <= u) by (nonlinear_arith);
        assert(u / 0x1000 <= u) by (nonlinear_arith);
        assert(u / 0x40000 <= u) by (nonlinear_arith);
        assert(u % 0x40 < 0x40) by (nonlinear_arith);
    }
    let mut r: Vec<u8> = Vec::new();
    if u < 0x80 {
        r.push(u as u8);
    } else if u < 0x800 {
        r.push((0xC0 + u / 0x40) as u8);
        r.push((0x80 + u % 0x40) as u8);
    } else if u < 0x10000 {
        r.push((0xE0 + u / 0x1000) as u8);
        r.push((0x80 + (u / 0x40) % 0x40) as u8);
        r.push((0x80 + u % 0x40) as u8);
    } else {
        r.push((0xF0 + u / 0x40000) as u8);
        r.push((0x80 + (u / 0x1000) % 0x40) as u8);
        r.push((0x80 + (u / 0x40) % 0x40) as u8);
        r.push((0x80 + u % 0x40) as u8);
    }
    proof {
        assert(r@ =~= utf8_encode(c));
    }
    r
}

} // verus!
