//! The terminal screen that a session's output builds up.
//!
//! The emulation is the `vt100` crate's. What an emulated screen shows is a function of what the
//! emulator was told since it was made: its sizes and the output it processed. That history is
//! what the contracts here speak of.

use vstd::prelude::*;
use vstd::slice::slice_subrange;

verus! {

/// Rows of history that the emulated terminal keeps.
pub const VT_SCROLLBACK_ROWS: usize = 10_000;

/// One thing that an emulator was told.
pub enum TermEvent {
    /// Made with, or set to, a number of rows and columns.
    Size(u16, u16),
    /// Output to process.
    Bytes(Seq<u8>),
}

/// The size that was set last.
pub open spec fn last_size(history: Seq<TermEvent>) -> (u16, u16)
    decreases history.len(),
{
    if history.len() == 0 {
        (0, 0)
    } else {
        match history.last() {
            TermEvent::Size(rows, cols) => (rows, cols),
            TermEvent::Bytes(_) => last_size(history.drop_last()),
        }
    }
}

/// The escape codes that redraw the screen left by a history.
pub uninterp spec fn screen_codes(history: Seq<TermEvent>) -> Seq<u8>;

/// The text that is visible after a history.
pub uninterp spec fn screen_text(history: Seq<TermEvent>) -> Seq<char>;

/// Row and column of the cursor after a history.
pub uninterp spec fn screen_cursor(history: Seq<TermEvent>) -> (u16, u16);

/// Whether the alternate screen is in use after a history.
pub uninterp spec fn screen_alternate(history: Seq<TermEvent>) -> bool;

/// The emulator, held opaquely: its type has a parameter bound by a trait of `vt100`.
#[verifier::external_body]
pub struct Emulator {
    parser: vt100::Parser,
}

/// What an emulator was told since it was made.
pub uninterp spec fn emulator_history(emulator: Emulator) -> Seq<TermEvent>;

// ---------------------------------------------------------------------------
// What the emulator can draw
// ---------------------------------------------------------------------------

/// Whether the cell at a row and column holds the first half of a wide character.
pub uninterp spec fn screen_wide(history: Seq<TermEvent>, row: u16, col: u16) -> bool;

/// Whether the cell at a row and column holds the second half of a wide character.
pub uninterp spec fn screen_continued(history: Seq<TermEvent>, row: u16, col: u16) -> bool;

/// The largest number of columns whose tab stops fit into 16 bits.
pub const MAX_COLS: u16 = 65527;

/// Bytes after `0xe2` with which every character is one column wide: punctuation, arrows, box
/// drawing and block elements, Braille.
pub open spec fn narrow_second(b: u8) -> bool {
    b == 0x80 || b == 0x86 || b == 0x87 || (0x94 <= b && b <= 0x96) || (0xa0 <= b && b <= 0xa3)
}

pub open spec fn known_narrow_at(bytes: Seq<u8>, i: int) -> bool {
    bytes[i] <= 0xe0 || (bytes[i] == 0xe2 && i + 1 < bytes.len() && narrow_second(bytes[i + 1]))
}

/// The output can be seen, by its bytes, to hold no character of more than one column. Output that
/// cannot may still hold none.
pub open spec fn known_narrow(bytes: Seq<u8>) -> bool {
    forall|i: int| 0 <= i < bytes.len() ==> #[trigger] known_narrow_at(bytes, i)
}

/// All output so far can be seen to hold no character of more than one column.
pub open spec fn known_narrow_history(history: Seq<TermEvent>) -> bool
    decreases history.len(),
{
    history.len() == 0 || (known_narrow_history(history.drop_last()) && match history.last() {
        TermEvent::Size(_, _) => true,
        TermEvent::Bytes(b) => known_narrow(b),
    })
}

/// The screen was made narrower after output that may have held a wide character, so one may have
/// lost its second half.
pub open spec fn may_hold_halves(history: Seq<TermEvent>) -> bool
    decreases history.len(),
{
    history.len() > 0 && (may_hold_halves(history.drop_last()) || match history.last() {
        TermEvent::Size(_, cols) => cols < last_size(history.drop_last()).1
            && !known_narrow_history(history.drop_last()),
        TermEvent::Bytes(_) => false,
    })
}

/// On a screen of two rows and three columns or more, whose tab stops fit into 16 bits, the
/// emulator takes any output while no wide character has lost a half. Where there are no wide
/// characters at all it does so from one column on.
pub open spec fn takes_whole(history: Seq<TermEvent>, bytes: Seq<u8>) -> bool {
    &&& last_size(history).0 >= 2
    &&& 1 <= last_size(history).1 <= MAX_COLS
    &&& (known_narrow_history(history) && known_narrow(bytes)) || (last_size(history).1 >= 3
        && !may_hold_halves(history))
}

/// What the emulator takes the next byte for.
#[derive(Clone, Copy, Debug, PartialEq, Eq, Structural)]
pub enum ParseMode {
    /// Text.
    Ground,
    /// What follows an escape.
    Escape,
    /// What follows an escape and intermediate bytes.
    EscapeMore,
    /// A part of a control sequence, after `ESC [`.
    Control,
    /// A part of an operating system command, after `ESC ]`.
    Command,
    /// A part of another string, such as a device control string.
    Data,
    /// Text or a part of a string.
    Unknown,
}

pub open spec fn mode_after(mode: ParseMode, b: u8) -> ParseMode {
    if b == 0x1b {
        ParseMode::Escape
    } else if b == 0x18 || b == 0x1a {
        ParseMode::Ground
    } else {
        match mode {
            ParseMode::Escape => if 0x20 <= b <= 0x2f {
                ParseMode::EscapeMore
            } else if b == 0x5b {
                ParseMode::Control
            } else if b == 0x5d {
                ParseMode::Command
            } else if b == 0x50 || b == 0x58 || b == 0x5e || b == 0x5f {
                ParseMode::Data
            } else if 0x30 <= b <= 0x7e {
                ParseMode::Ground
            } else {
                ParseMode::Escape
            },
            ParseMode::EscapeMore => if 0x30 <= b <= 0x7e {
                ParseMode::Ground
            } else {
                ParseMode::EscapeMore
            },
            ParseMode::Control => if 0x40 <= b <= 0x7e {
                ParseMode::Ground
            } else {
                ParseMode::Control
            },
            ParseMode::Command => if b == 0x07 {
                ParseMode::Ground
            } else {
                ParseMode::Command
            },
            ParseMode::Data => if b == 0x9c {
                ParseMode::Unknown
            } else {
                ParseMode::Data
            },
            _ => mode,
        }
    }
}

pub open spec fn mode_through(mode: ParseMode, bytes: Seq<u8>) -> ParseMode
    decreases bytes.len(),
{
    if bytes.len() == 0 {
        mode
    } else {
        mode_after(mode_through(mode, bytes.drop_last()), bytes.last())
    }
}

pub open spec fn mode_of(history: Seq<TermEvent>) -> ParseMode
    decreases history.len(),
{
    if history.len() == 0 {
        ParseMode::Ground
    } else {
        match history.last() {
            TermEvent::Size(_, _) => mode_of(history.drop_last()),
            TermEvent::Bytes(b) => mode_through(mode_of(history.drop_last()), b),
        }
    }
}

/// A cell with one half of a wide character stands beside the cell with the other half.
pub open spec fn tidy_cell(history: Seq<TermEvent>, row: u16, col: u16) -> bool {
    &&& screen_wide(history, row, col) ==> col + 1 < last_size(history).1 && screen_continued(
        history,
        row,
        (col + 1) as u16,
    )
    &&& screen_continued(history, row, col) ==> col > 0 && screen_wide(
        history,
        row,
        (col - 1) as u16,
    )
}

/// No wide character in the row has lost a half.
pub open spec fn tidy_row(history: Seq<TermEvent>, row: u16) -> bool {
    forall|col: u16| col < last_size(history).1 ==> #[trigger] tidy_cell(history, row, col)
}

/// The rows that a character can be drawn in where the line wraps are tidy: that of the cursor, and
/// the one below it, if there is one.
pub open spec fn tidy_at_cursor(history: Seq<TermEvent>) -> bool {
    &&& tidy_row(history, screen_cursor(history).0)
    &&& screen_cursor(history).0 + 1 < last_size(history).0 ==> tidy_row(
        history,
        (screen_cursor(history).0 + 1) as u16,
    )
}

/// The most columns that a character can take whose last byte is `b`. Only U+17D8, which ends in
/// `0x98`, takes three.
pub open spec fn most_columns(b: u8) -> u16 {
    if b < 0x80 {
        1
    } else if b == 0x98 {
        3
    } else {
        2
    }
}

/// A character that ends in the byte `b` can be drawn at the cursor without a wrap, and overwrites
/// no half whose other half is gone. One that is not of ASCII may take the next cell too, or add to
/// the one before.
pub open spec fn fits_at_cursor(history: Seq<TermEvent>, b: u8) -> bool {
    let (row, col) = screen_cursor(history);
    &&& col + most_columns(b) <= last_size(history).1
    &&& tidy_cell(history, row, col)
    &&& b >= 0x80 ==> tidy_cell(history, row, (col + 1) as u16) && (col > 0 ==> tidy_cell(
        history,
        row,
        (col - 1) as u16,
    ))
}

/// A character that ends in the byte `b` can be drawn, in the cursor's row or where the line wraps.
pub open spec fn takes_character(history: Seq<TermEvent>, b: u8) -> bool {
    fits_at_cursor(history, b) || (last_size(history).0 >= 2 && most_columns(b) <= last_size(
        history,
    ).1 && tidy_at_cursor(history))
}

/// The final bytes of the control sequences that take cells of the cursor's row away one by one:
/// `J`, `K`, `P` and `X`.
pub open spec fn erases(b: u8) -> bool {
    b == 0x4a || b == 0x4b || b == 0x50 || b == 0x58
}

/// The emulator takes one byte. A control character draws nothing, but a tab must have a tab stop
/// that fits into 16 bits. A byte of text draws a character. Of the bytes of a sequence only a
/// final byte that erases looks at cells.
pub open spec fn takes_byte(history: Seq<TermEvent>, b: u8) -> bool {
    if b == 0x09 {
        screen_cursor(history).1 <= MAX_COLS
    } else if b < 0x20 {
        true
    } else {
        match mode_of(history) {
            ParseMode::Ground | ParseMode::Unknown => takes_character(history, b),
            ParseMode::Control => erases(b) ==> tidy_row(history, screen_cursor(history).0),
            _ => true,
        }
    }
}

/// A whole control sequence: `ESC [`, parameters and intermediate bytes, and the final byte.
pub open spec fn is_control_sequence(p: Seq<u8>) -> bool {
    &&& p.len() >= 3
    &&& p[0] == 0x1b
    &&& p[1] == 0x5b
    &&& forall|i: int| 2 <= i < p.len() - 1 ==> 0x20 <= #[trigger] p[i] <= 0x3f
    &&& 0x40 <= p.last() <= 0x7e
}

/// A control sequence that takes cells away one by one: not one that clears the whole screen or the
/// whole row.
pub open spec fn erases_cells(p: Seq<u8>) -> bool {
    erases(p.last()) && !(p.len() == 4 && p[2] == 0x32 && (p.last() == 0x4a || p.last() == 0x4b))
}

/// The emulator takes a whole control sequence: none draws a character, and one that erases cells
/// must find the row tidy.
pub open spec fn takes_sequence(history: Seq<TermEvent>, p: Seq<u8>) -> bool {
    erases_cells(p) ==> tidy_row(history, screen_cursor(history).0)
}

/// The emulator can process `bytes` after `history`. It panics where a line wraps on a screen of
/// one row, where a character is wider than the screen, where a half of a wide character is
/// overwritten or erased whose other half is gone, and where a tab stop does not fit into 16 bits;
/// the conditions keep clear of that, at times by more than they must.
pub open spec fn can_process(history: Seq<TermEvent>, bytes: Seq<u8>) -> bool {
    ||| takes_whole(history, bytes)
    ||| bytes.len() == 1 && takes_byte(history, bytes[0])
    ||| is_control_sequence(bytes) && takes_sequence(history, bytes)
}

// ---------------------------------------------------------------------------
// What is drawn
// ---------------------------------------------------------------------------

/// Where the control sequence ends whose parameters begin at `i`, zero if it does not end here.
pub open spec fn sequence_end(bytes: Seq<u8>, i: int) -> int
    decreases bytes.len() - i,
{
    if i >= bytes.len() {
        0
    } else if 0x40 <= bytes[i] <= 0x7e {
        i + 1
    } else if 0x20 <= bytes[i] <= 0x3f {
        sequence_end(bytes, i + 1)
    } else {
        0
    }
}

/// How much of the output is looked at together: a whole control sequence, or one byte.
pub open spec fn piece_len(bytes: Seq<u8>) -> int {
    if bytes.len() >= 3 && bytes[0] == 0x1b && bytes[1] == 0x5b && sequence_end(bytes, 2) > 0 {
        sequence_end(bytes, 2)
    } else {
        1
    }
}

pub open spec fn after_piece(history: Seq<TermEvent>, piece: Seq<u8>) -> Seq<TermEvent> {
    if can_process(history, piece) {
        history.push(TermEvent::Bytes(piece))
    } else {
        history
    }
}

/// The history after output that is drawn piece by piece, without the pieces that the emulator
/// cannot process where they come.
pub open spec fn drawn_pieces(history: Seq<TermEvent>, bytes: Seq<u8>) -> Seq<TermEvent>
    decreases bytes.len(),
{
    let n = piece_len(bytes);
    if bytes.len() == 0 || n < 1 || n > bytes.len() {
        history
    } else {
        drawn_pieces(after_piece(history, bytes.take(n)), bytes.skip(n))
    }
}

/// The history after output: drawn as a whole where the emulator takes it so, piece by piece
/// elsewhere.
pub open spec fn drawn(history: Seq<TermEvent>, bytes: Seq<u8>) -> Seq<TermEvent> {
    if takes_whole(history, bytes) {
        history.push(TermEvent::Bytes(bytes))
    } else {
        drawn_pieces(history, bytes)
    }
}

proof fn lemma_sequence_end(bytes: Seq<u8>, i: int)
    requires
        0 <= i,
    ensures
        0 <= sequence_end(bytes, i) <= bytes.len(),
        sequence_end(bytes, i) > 0 ==> {
            let e = sequence_end(bytes, i);
            &&& i < e
            &&& 0x40 <= bytes[e - 1] <= 0x7e
            &&& forall|k: int| i <= k < e - 1 ==> 0x20 <= #[trigger] bytes[k] <= 0x3f
        },
    decreases bytes.len() - i,
{
    if i < bytes.len() && 0x20 <= bytes[i] <= 0x3f {
        lemma_sequence_end(bytes, i + 1);
    }
}

proof fn lemma_piece(bytes: Seq<u8>)
    requires
        bytes.len() > 0,
    ensures
        1 <= piece_len(bytes) <= bytes.len(),
        piece_len(bytes) == 1 || is_control_sequence(bytes.take(piece_len(bytes))),
{
    lemma_sequence_end(bytes, 2);
    let n = piece_len(bytes);
    if n != 1 {
        let p = bytes.take(n);
        assert(p.last() == bytes[n - 1]);
        assert forall|i: int| 2 <= i < p.len() - 1 implies 0x20 <= #[trigger] p[i] <= 0x3f by {
            assert(p[i] == bytes[i]);
        }
    }
}

/// Drawing does not change the size of the screen.
pub proof fn law_drawing_keeps_the_size(history: Seq<TermEvent>, bytes: Seq<u8>)
    ensures
        last_size(drawn(history, bytes)) == last_size(history),
{
    assert(history.push(TermEvent::Bytes(bytes)).drop_last() =~= history);
    lemma_pieces_keep_the_size(history, bytes);
}

proof fn lemma_pieces_keep_the_size(history: Seq<TermEvent>, bytes: Seq<u8>)
    ensures
        last_size(drawn_pieces(history, bytes)) == last_size(history),
    decreases bytes.len(),
{
    if bytes.len() > 0 {
        lemma_piece(bytes);
        let n = piece_len(bytes);
        let p = bytes.take(n);
        assert(history.push(TermEvent::Bytes(p)).drop_last() =~= history);
        lemma_pieces_keep_the_size(after_piece(history, p), bytes.skip(n));
    }
}

/// The output that a history holds, in order.
pub open spec fn output_of(history: Seq<TermEvent>) -> Seq<u8>
    decreases history.len(),
{
    if history.len() == 0 {
        Seq::empty()
    } else {
        output_of(history.drop_last()) + match history.last() {
            TermEvent::Size(_, _) => Seq::empty(),
            TermEvent::Bytes(b) => b,
        }
    }
}

/// Each piece of the output can be processed where it comes.
pub open spec fn takes_pieces(history: Seq<TermEvent>, bytes: Seq<u8>) -> bool
    decreases bytes.len(),
{
    let n = piece_len(bytes);
    bytes.len() == 0 || (1 <= n <= bytes.len() && can_process(history, bytes.take(n))
        && takes_pieces(history.push(TermEvent::Bytes(bytes.take(n))), bytes.skip(n)))
}

/// Nothing is left out of what is drawn unless the emulator cannot process it where it comes.
pub proof fn law_all_that_can_be_is_drawn(history: Seq<TermEvent>, bytes: Seq<u8>)
    requires
        takes_whole(history, bytes) || takes_pieces(history, bytes),
    ensures
        output_of(drawn(history, bytes)) == output_of(history) + bytes,
{
    if takes_whole(history, bytes) {
        assert(history.push(TermEvent::Bytes(bytes)).drop_last() =~= history);
    } else {
        lemma_pieces_are_drawn(history, bytes);
    }
}

proof fn lemma_pieces_are_drawn(history: Seq<TermEvent>, bytes: Seq<u8>)
    requires
        takes_pieces(history, bytes),
    ensures
        output_of(drawn_pieces(history, bytes)) == output_of(history) + bytes,
    decreases bytes.len(),
{
    if bytes.len() == 0 {
        assert(output_of(history) + bytes =~= output_of(history));
    } else {
        let n = piece_len(bytes);
        let (p, rest) = (bytes.take(n), bytes.skip(n));
        let next = history.push(TermEvent::Bytes(p));
        assert(next.drop_last() =~= history);
        lemma_pieces_are_drawn(next, rest);
        assert(output_of(next) + rest =~= output_of(history) + bytes);
    }
}

/// Where no wide character near the cursor has lost a half, an ordinary screen takes every piece of
/// output.
pub proof fn law_tidy_rows_take_all_output(history: Seq<TermEvent>, piece: Seq<u8>)
    requires
        last_size(history).0 >= 2,
        3 <= last_size(history).1 <= MAX_COLS,
        screen_cursor(history).1 <= last_size(history).1,
        tidy_at_cursor(history),
        piece.len() == 1 || is_control_sequence(piece),
    ensures
        after_piece(history, piece) == history.push(TermEvent::Bytes(piece)),
{
}

/// A screen of two rows and three columns or more that was never made narrower draws all output.
pub proof fn law_screens_draw_all_output(history: Seq<TermEvent>, bytes: Seq<u8>)
    requires
        last_size(history).0 >= 2,
        3 <= last_size(history).1 <= MAX_COLS,
        never_narrowed(history),
    ensures
        drawn(history, bytes) == history.push(TermEvent::Bytes(bytes)),
{
    lemma_no_halves(history);
}

/// No size had fewer columns than the one before it.
pub open spec fn never_narrowed(history: Seq<TermEvent>) -> bool
    decreases history.len(),
{
    history.len() == 0 || (never_narrowed(history.drop_last()) && match history.last() {
        TermEvent::Size(_, cols) => cols >= last_size(history.drop_last()).1,
        TermEvent::Bytes(_) => true,
    })
}

proof fn lemma_no_halves(history: Seq<TermEvent>)
    requires
        never_narrowed(history),
    ensures
        !may_hold_halves(history),
    decreases history.len(),
{
    if history.len() > 0 {
        lemma_no_halves(history.drop_last());
    }
}

// ---------------------------------------------------------------------------
// The emulator
// ---------------------------------------------------------------------------

/// `vt100::Parser::new`, which subtracts one from the number of rows. The history of the new
/// emulator is its size.
#[verifier::external_body]
fn new_emulator(rows: u16, cols: u16) -> (r: Emulator)
    requires
        rows > 0,
        cols > 0,
    ensures
        emulator_history(r) == seq![TermEvent::Size(rows, cols)],
{
    Emulator { parser: vt100::Parser::new(rows, cols, VT_SCROLLBACK_ROWS) }
}

/// `vt100::Screen::set_size`: adds the size to the history.
#[verifier::external_body]
fn set_emulator_size(emulator: &mut Emulator, rows: u16, cols: u16)
    requires
        rows > 0,
        cols > 0,
    ensures
        emulator_history(*final(emulator)) == emulator_history(*old(emulator)).push(
            TermEvent::Size(rows, cols),
        ),
{
    emulator.parser.screen_mut().set_size(rows, cols);
}

/// `vt100::Parser::process`: adds the bytes to the history. See [`can_process`] for what it takes.
#[verifier::external_body]
fn process_bytes(emulator: &mut Emulator, bytes: &[u8])
    requires
        can_process(emulator_history(*old(emulator)), bytes@),
    ensures
        emulator_history(*final(emulator)) == emulator_history(*old(emulator)).push(
            TermEvent::Bytes(bytes@),
        ),
{
    emulator.parser.process(bytes);
}

/// `vt100::Screen::state_formatted`: the escape codes that redraw the screen.
#[verifier::external_body]
fn formatted_state(emulator: &Emulator) -> (r: Vec<u8>)
    ensures
        r@ == screen_codes(emulator_history(*emulator)),
{
    emulator.parser.screen().state_formatted()
}

/// `vt100::Screen::contents`: the visible text.
#[verifier::external_body]
fn visible_contents(emulator: &Emulator) -> (r: String)
    ensures
        r@ == screen_text(emulator_history(*emulator)),
{
    emulator.parser.screen().contents()
}

/// `vt100::Screen::size`: the size set last, as rows and columns.
#[verifier::external_body]
fn current_size(emulator: &Emulator) -> (r: (u16, u16))
    ensures
        r == last_size(emulator_history(*emulator)),
{
    emulator.parser.screen().size()
}

/// `vt100::Screen::cursor_position`: row and column of the cursor.
#[verifier::external_body]
fn current_cursor(emulator: &Emulator) -> (r: (u16, u16))
    ensures
        r == screen_cursor(emulator_history(*emulator)),
{
    emulator.parser.screen().cursor_position()
}

/// `vt100::Screen::cell` and `vt100::Cell::is_wide`: whether a cell holds the first half of a wide
/// character.
#[verifier::external_body]
fn wide_at(emulator: &Emulator, row: u16, col: u16) -> (r: bool)
    ensures
        r == screen_wide(emulator_history(*emulator), row, col),
{
    match emulator.parser.screen().cell(row, col) {
        Some(cell) => cell.is_wide(),
        None => false,
    }
}

/// `vt100::Screen::cell` and `vt100::Cell::is_wide_continuation`: whether a cell holds the second
/// half of a wide character.
#[verifier::external_body]
fn continued_at(emulator: &Emulator, row: u16, col: u16) -> (r: bool)
    ensures
        r == screen_continued(emulator_history(*emulator), row, col),
{
    match emulator.parser.screen().cell(row, col) {
        Some(cell) => cell.is_wide_continuation(),
        None => false,
    }
}

/// `vt100::Screen::alternate_screen`: whether the alternate screen is in use.
#[verifier::external_body]
fn on_alternate_screen(emulator: &Emulator) -> (r: bool)
    ensures
        r == screen_alternate(emulator_history(*emulator)),
{
    emulator.parser.screen().alternate_screen()
}

// ---------------------------------------------------------------------------
// The screen
// ---------------------------------------------------------------------------

/// A number of rows or columns brought into the range from 1 to `u16::MAX`.
pub open spec fn clamp_cells(n: nat) -> u16 {
    if n == 0 {
        1
    } else if n > u16::MAX {
        u16::MAX
    } else {
        n as u16
    }
}

fn clamped(n: usize) -> (r: u16)
    ensures
        r == clamp_cells(n as nat),
        r > 0,
{
    if n == 0 {
        1
    } else if n > 65535 {
        65535
    } else {
        n as u16
    }
}

fn is_known_narrow(bytes: &[u8]) -> (r: bool)
    ensures
        r == known_narrow(bytes@),
{
    let mut i: usize = 0;
    while i < bytes.len()
        invariant
            i <= bytes@.len(),
            forall|k: int| 0 <= k < i ==> #[trigger] known_narrow_at(bytes@, k),
        decreases bytes@.len() - i,
    {
        let b = bytes[i];
        let ok = b <= 0xe0 || (b == 0xe2 && bytes.len() - i > 1 && {
            let c = bytes[i + 1];
            c == 0x80 || c == 0x86 || c == 0x87 || (0x94 <= c && c <= 0x96) || (0xa0 <= c && c
                <= 0xa3)
        });
        assert(ok == known_narrow_at(bytes@, i as int));
        if !ok {
            return false;
        }
        i += 1;
    }
    true
}

fn next_mode(mode: ParseMode, b: u8) -> (r: ParseMode)
    ensures
        r == mode_after(mode, b),
{
    if b == 0x1b {
        return ParseMode::Escape;
    }
    if b == 0x18 || b == 0x1a {
        return ParseMode::Ground;
    }
    match mode {
        ParseMode::Escape => if 0x20 <= b && b <= 0x2f {
            ParseMode::EscapeMore
        } else if b == 0x5b {
            ParseMode::Control
        } else if b == 0x5d {
            ParseMode::Command
        } else if b == 0x50 || b == 0x58 || b == 0x5e || b == 0x5f {
            ParseMode::Data
        } else if 0x30 <= b && b <= 0x7e {
            ParseMode::Ground
        } else {
            ParseMode::Escape
        },
        ParseMode::EscapeMore if 0x30 <= b && b <= 0x7e => ParseMode::Ground,
        ParseMode::Control if 0x40 <= b && b <= 0x7e => ParseMode::Ground,
        ParseMode::Command if b == 0x07 => ParseMode::Ground,
        ParseMode::Data if b == 0x9c => ParseMode::Unknown,
        _ => mode,
    }
}

fn last_mode(mode: ParseMode, bytes: &[u8]) -> (r: ParseMode)
    ensures
        r == mode_through(mode, bytes@),
{
    let mut m = mode;
    let mut i: usize = 0;
    assert(bytes@.take(0) =~= Seq::empty());
    while i < bytes.len()
        invariant
            i <= bytes@.len(),
            m == mode_through(mode, bytes@.take(i as int)),
        decreases bytes@.len() - i,
    {
        assert(bytes@.take(i + 1).drop_last() =~= bytes@.take(i as int));
        m = next_mode(m, bytes[i]);
        i += 1;
    }
    assert(bytes@.take(i as int) =~= bytes@);
    m
}

fn most_columns_of(b: u8) -> (r: u16)
    ensures
        r == most_columns(b),
{
    if b < 0x80 {
        1
    } else if b == 0x98 {
        3
    } else {
        2
    }
}

/// The length of the piece that begins at `start`.
fn next_piece(bytes: &[u8], start: usize) -> (r: usize)
    requires
        start < bytes@.len(),
    ensures
        r == piece_len(bytes@.skip(start as int)),
        1 <= r <= bytes@.len() - start,
{
    let ghost rest = bytes@.skip(start as int);
    proof {
        lemma_piece(rest);
    }
    let left: usize = bytes.len() - start;
    if left < 3 || bytes[start] != 0x1b || bytes[start + 1] != 0x5b {
        return 1;
    }
    let mut i: usize = 2;
    while i < left && 0x20 <= bytes[start + i] && bytes[start + i] <= 0x3f
        invariant
            2 <= i <= left,
            left == bytes@.len() - start,
            bytes@.len() <= usize::MAX,
            rest == bytes@.skip(start as int),
            sequence_end(rest, 2) == sequence_end(rest, i as int),
        decreases left - i,
    {
        assert(rest[i as int] == bytes@[start + i]);
        i += 1;
    }
    if i < left {
        assert(rest[i as int] == bytes@[start + i]);
        if 0x40 <= bytes[start + i] && bytes[start + i] <= 0x7e {
            return i + 1;
        }
    }
    1
}

/// An emulated screen, and what must be known of its history to keep feeding it.
pub struct ScreenState {
    emulator: Emulator,
    known_narrow: bool,
    may_hold_halves: bool,
    mode: ParseMode,
}

impl ScreenState {
    /// What the screen was told since it was made.
    pub closed spec fn history(self) -> Seq<TermEvent> {
        emulator_history(self.emulator)
    }

    pub closed spec fn wf(self) -> bool {
        &&& self.known_narrow == known_narrow_history(self.history())
        &&& self.may_hold_halves == may_hold_halves(self.history())
        &&& self.mode == mode_of(self.history())
        &&& self.history().len() > 0
        &&& last_size(self.history()).0 >= 1
        &&& last_size(self.history()).1 >= 1
    }

    /// A blank screen; the numbers are clamped to the range of `u16` without zero.
    pub fn new(rows: usize, cols: usize) -> (r: Self)
        ensures
            r.wf(),
            r.history() == seq![
                TermEvent::Size(clamp_cells(rows as nat), clamp_cells(cols as nat)),
            ],
    {
        let emulator = new_emulator(clamped(rows), clamped(cols));
        let r = ScreenState {
            emulator,
            known_narrow: true,
            may_hold_halves: false,
            mode: ParseMode::Ground,
        };
        proof {
            let h = r.history();
            assert(h.drop_last().len() == 0);
            assert(known_narrow_history(h.drop_last()));
            assert(!may_hold_halves(h.drop_last()));
            assert(mode_of(h.drop_last()) == ParseMode::Ground);
        }
        r
    }

    pub fn resize(&mut self, rows: usize, cols: usize)
        requires
            old(self).wf(),
        ensures
            final(self).wf(),
            final(self).history() == old(self).history().push(
                TermEvent::Size(clamp_cells(rows as nat), clamp_cells(cols as nat)),
            ),
    {
        let before = current_size(&self.emulator);
        let new_cols = clamped(cols);
        let ghost h = self.history();
        set_emulator_size(&mut self.emulator, clamped(rows), new_cols);
        if new_cols < before.1 && !self.known_narrow {
            self.may_hold_halves = true;
        }
        proof {
            assert(self.history().drop_last() =~= h);
        }
    }

    fn is_cell_tidy(&self, row: u16, col: u16) -> (r: bool)
        ensures
            r == tidy_cell(self.history(), row, col),
    {
        let cols = current_size(&self.emulator).1;
        if wide_at(&self.emulator, row, col) && (col >= cols || cols - col == 1 || !continued_at(
            &self.emulator,
            row,
            col + 1,
        )) {
            return false;
        }
        !continued_at(&self.emulator, row, col) || (col > 0 && wide_at(
            &self.emulator,
            row,
            col - 1,
        ))
    }

    fn is_row_tidy(&self, row: u16) -> (r: bool)
        ensures
            r == tidy_row(self.history(), row),
    {
        let cols = current_size(&self.emulator).1;
        let mut col: u16 = 0;
        while col < cols
            invariant
                cols == last_size(self.history()).1,
                col <= cols,
                forall|c: u16| c < col ==> #[trigger] tidy_cell(self.history(), row, c),
            decreases cols - col,
        {
            if !self.is_cell_tidy(row, col) {
                return false;
            }
            col += 1;
        }
        true
    }

    fn is_tidy_at_cursor(&self) -> (r: bool)
        ensures
            r == tidy_at_cursor(self.history()),
    {
        let row = current_cursor(&self.emulator).0;
        let rows = current_size(&self.emulator).0;
        self.is_row_tidy(row) && (row >= rows || rows - row == 1 || self.is_row_tidy(row + 1))
    }

    fn can_take_whole(&self, bytes: &[u8]) -> (r: bool)
        requires
            self.wf(),
        ensures
            r == takes_whole(self.history(), bytes@),
    {
        let (rows, cols) = current_size(&self.emulator);
        rows >= 2 && cols <= MAX_COLS && ((cols >= 3 && !self.may_hold_halves) || (
        self.known_narrow && is_known_narrow(bytes)))
    }

    fn can_take_character(&self, b: u8) -> (r: bool)
        ensures
            r == takes_character(self.history(), b),
    {
        let (row, col) = current_cursor(&self.emulator);
        let (rows, cols) = current_size(&self.emulator);
        let most = most_columns_of(b);
        if most > cols {
            return false;
        }
        if col <= cols - most && self.is_cell_tidy(row, col) && (b < 0x80 || (self.is_cell_tidy(
            row,
            col + 1,
        ) && (col == 0 || self.is_cell_tidy(row, col - 1)))) {
            return true;
        }
        rows >= 2 && self.is_tidy_at_cursor()
    }

    fn can_take_byte(&self, b: u8) -> (r: bool)
        requires
            self.wf(),
        ensures
            r == takes_byte(self.history(), b),
    {
        if b == 0x09 {
            return current_cursor(&self.emulator).1 <= MAX_COLS;
        }
        if b < 0x20 {
            return true;
        }
        match self.mode {
            ParseMode::Ground | ParseMode::Unknown => self.can_take_character(b),
            ParseMode::Control => !(b == 0x4a || b == 0x4b || b == 0x50 || b == 0x58)
                || self.is_row_tidy(current_cursor(&self.emulator).0),
            _ => true,
        }
    }

    fn can_take_sequence(&self, p: &[u8]) -> (r: bool)
        requires
            p@.len() >= 3,
        ensures
            r == takes_sequence(self.history(), p@),
    {
        let last = p[p.len() - 1];
        let cells = (last == 0x4a || last == 0x4b || last == 0x50 || last == 0x58) && !(p.len()
            == 4 && p[2] == 0x32 && (last == 0x4a || last == 0x4b));
        !cells || self.is_row_tidy(current_cursor(&self.emulator).0)
    }

    fn process(&mut self, bytes: &[u8])
        requires
            old(self).wf(),
            can_process(old(self).history(), bytes@),
        ensures
            final(self).wf(),
            final(self).history() == old(self).history().push(TermEvent::Bytes(bytes@)),
    {
        let ghost h = self.history();
        let still_narrow = self.known_narrow && is_known_narrow(bytes);
        process_bytes(&mut self.emulator, bytes);
        self.known_narrow = still_narrow;
        self.mode = last_mode(self.mode, bytes);
        proof {
            assert(self.history().drop_last() =~= h);
        }
    }

    fn process_piece(&mut self, piece: &[u8])
        requires
            old(self).wf(),
            piece@.len() == 1 || is_control_sequence(piece@),
        ensures
            final(self).wf(),
            final(self).history() == after_piece(old(self).history(), piece@),
    {
        let can = self.can_take_whole(piece) || if piece.len() == 1 {
            self.can_take_byte(piece[0])
        } else {
            self.can_take_sequence(piece)
        };
        if can {
            self.process(piece);
        }
    }

    /// Draws output, as far as the emulator can process it.
    pub fn apply_bytes(&mut self, bytes: &[u8])
        requires
            old(self).wf(),
        ensures
            final(self).wf(),
            final(self).history() == drawn(old(self).history(), bytes@),
    {
        if self.can_take_whole(bytes) {
            self.process(bytes);
            return;
        }
        let ghost all = drawn_pieces(self.history(), bytes@);
        let mut i: usize = 0;
        assert(bytes@.skip(0) =~= bytes@);
        while i < bytes.len()
            invariant
                i <= bytes@.len(),
                self.wf(),
                drawn_pieces(self.history(), bytes@.skip(i as int)) == all,
            decreases bytes@.len() - i,
        {
            let ghost rest = bytes@.skip(i as int);
            let n = next_piece(bytes, i);
            let piece = slice_subrange(bytes, i, i + n);
            proof {
                lemma_piece(rest);
                assert(piece@ =~= rest.take(n as int));
                assert(bytes@.skip(i + n) =~= rest.skip(n as int));
            }
            self.process_piece(piece);
            i += n;
        }
    }

    pub fn render(&self) -> (r: Vec<u8>)
        ensures
            r@ == screen_codes(self.history()),
    {
        formatted_state(&self.emulator)
    }

    pub fn render_plaintext(&self) -> (r: String)
        ensures
            r@ == screen_text(self.history()),
    {
        visible_contents(&self.emulator)
    }

    pub fn size(&self) -> (r: (u16, u16))
        ensures
            r == last_size(self.history()),
    {
        current_size(&self.emulator)
    }

    pub fn cursor_position(&self) -> (r: (u16, u16))
        ensures
            r == screen_cursor(self.history()),
    {
        current_cursor(&self.emulator)
    }

    pub fn alternate_screen_active(&self) -> (r: bool)
        ensures
            r == screen_alternate(self.history()),
    {
        on_alternate_screen(&self.emulator)
    }
}

} // verus!
