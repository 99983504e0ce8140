//! The terminal-escape-sequence interpreter, consumed as an opaque outside
//! capability: it turns a raw byte stream into a structured screen. Nothing
//! is assumed about the screen's contents; the library only carries the
//! interpreter's state and its snapshots through.

use vstd::prelude::*;

verus! {

/// vt100's screen snapshot: a styled cell grid plus cursor position.
#[verifier::external_type_specification]
#[verifier::external_body]
pub struct ExScreen(vt100::Screen);

/// vt100's escape-sequence interpreter state, held opaquely: the verifier
/// sees nothing of a value of this type but its identity.
#[verifier::external_body]
pub struct Emulator {
    parser: vt100::Parser,
}

/// Relies on vt100::Parser::new: a fresh emulator sized to the given rows
/// and columns, with no scrollback. A zero dimension is excluded: the
/// grid's constructor subtracts one from the row count, and a zero-column
/// screen breaks its clamps later.
#[verifier::external_body]
pub(crate) fn emulator_new(rows: u16, cols: u16) -> (p: Emulator)
    requires
        rows >= 1,
        cols >= 1,
{
    Emulator { parser: vt100::Parser::new(rows, cols, 0) }
}

/// Relies on vt100::Parser::process: folds one chunk of child output into
/// the emulator's state.
#[verifier::external_body]
pub(crate) fn emulator_process(p: &mut Emulator, bytes: &Vec<u8>) {
    p.parser.process(bytes.as_slice());
}

/// Relies on vt100::Parser::screen_mut and vt100::Screen::set_size: resizes
/// the emulator's screen in place. A zero dimension is excluded: the
/// resize subtracts one from the row count, and its saved-cursor clamp
/// subtracts one from the column count.
#[verifier::external_body]
pub(crate) fn emulator_set_size(p: &mut Emulator, rows: u16, cols: u16)
    requires
        rows >= 1,
        cols >= 1,
{
    p.parser.screen_mut().set_size(rows, cols);
}

/// Relies on vt100::Parser::screen and vt100::Screen::clone: a read-only
/// snapshot of the current screen.
#[verifier::external_body]
pub(crate) fn emulator_screen(p: &Emulator) -> (s: vt100::Screen) {
    p.parser.screen().clone()
}

} // verus!
