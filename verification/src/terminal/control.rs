//! Terminal control sequences: the characters that clear the screen, move
//! the cursor, switch screens and set the title. Each function appends them
//! to a string, which the caller sends to the terminal.
use vstd::prelude::*;
use crate::text_ops::{decimal, push_char};

verus! {

/// The escape sequence `ESC [` followed by `rest`.
pub open spec fn csi(rest: Seq<char>) -> Seq<char> {
    seq!['\x1b', '['] + rest
}

/// Calls `write_ansi` of crossterm's `Clear(ClearType::All)`, which appends
/// `ESC [ 2 J`.
#[verifier::external_body]
fn write_clear_all(out: &mut String)
    ensures
        final(out)@ == old(out)@ + csi(seq!['2', 'J']),
{
    let _ = crossterm::Command::write_ansi(&crossterm::terminal::Clear(crossterm::terminal::ClearType::All), out);
}

/// Calls `write_ansi` of crossterm's `Clear(ClearType::CurrentLine)`, which
/// appends `ESC [ 2 K`.
#[verifier::external_body]
fn write_clear_current_line(out: &mut String)
    ensures
        final(out)@ == old(out)@ + csi(seq!['2', 'K']),
{
    let _ = crossterm::Command::write_ansi(
        &crossterm::terminal::Clear(crossterm::terminal::ClearType::CurrentLine),
        out,
    );
}

/// Calls `write_ansi` of crossterm's `MoveTo(x, y)`, which appends
/// `ESC [ y+1 ; x+1 H` with the numbers in decimal.
#[verifier::external_body]
fn write_move_to(out: &mut String, x: u16, y: u16)
    requires
        x < u16::MAX,
        y < u16::MAX,
    ensures
        final(out)@ == old(out)@ + csi(decimal((y + 1) as nat) + seq![';'] + decimal((x + 1) as nat) + seq!['H']),
{
    let _ = crossterm::Command::write_ansi(&crossterm::cursor::MoveTo(x, y), out);
}

/// Calls `write_ansi` of crossterm's `MoveUp(n)`, which appends
/// `ESC [ n A` with `n` in decimal.
#[verifier::external_body]
fn write_move_up(out: &mut String, n: u16)
    ensures
        final(out)@ == old(out)@ + csi(decimal(n as nat) + seq!['A']),
{
    let _ = crossterm::Command::write_ansi(&crossterm::cursor::MoveUp(n), out);
}

/// Calls `write_ansi` of crossterm's `MoveDown(n)`, which appends
/// `ESC [ n B` with `n` in decimal.
#[verifier::external_body]
fn write_move_down(out: &mut String, n: u16)
    ensures
        final(out)@ == old(out)@ + csi(decimal(n as nat) + seq!['B']),
{
    let _ = crossterm::Command::write_ansi(&crossterm::cursor::MoveDown(n), out);
}

/// Calls `write_ansi` of crossterm's `MoveRight(n)`, which appends
/// `ESC [ n C` with `n` in decimal.
#[verifier::external_body]
fn write_move_right(out: &mut String, n: u16)
    ensures
        final(out)@ == old(out)@ + csi(decimal(n as nat) + seq!['C']),
{
    let _ = crossterm::Command::write_ansi(&crossterm::cursor::MoveRight(n), out);
}

/// Calls `write_ansi` of crossterm's `MoveLeft(n)`, which appends
/// `ESC [ n D` with `n` in decimal.
#[verifier::external_body]
fn write_move_left(out: &mut String, n: u16)
    ensures
        final(out)@ == old(out)@ + csi(decimal(n as nat) + seq!['D']),
{
    let _ = crossterm::Command::write_ansi(&crossterm::cursor::MoveLeft(n), out);
}

/// Calls `write_ansi` of crossterm's `Hide`, which appends `ESC [ ? 25 l`.
#[verifier::external_body]
fn write_hide_cursor(out: &mut String)
    ensures
        final(out)@ == old(out)@ + csi(seq!['?', '2', '5', 'l']),
{
    let _ = crossterm::Command::write_ansi(&crossterm::cursor::Hide, out);
}

/// Calls `write_ansi` of crossterm's `Show`, which appends `ESC [ ? 25 h`.
#[verifier::external_body]
fn write_show_cursor(out: &mut String)
    ensures
        final(out)@ == old(out)@ + csi(seq!['?', '2', '5', 'h']),
{
    let _ = crossterm::Command::write_ansi(&crossterm::cursor::Show, out);
}

/// Calls `write_ansi` of crossterm's `EnterAlternateScreen`, which appends
/// `ESC [ ? 1049 h`.
#[verifier::external_body]
fn write_enter_alt_screen(out: &mut String)
    ensures
        final(out)@ == old(out)@ + csi(seq!['?', '1', '0', '4', '9', 'h']),
{
    let _ = crossterm::Command::write_ansi(&crossterm::terminal::EnterAlternateScreen, out);
}

/// Calls `write_ansi` of crossterm's `LeaveAlternateScreen`, which appends
/// `ESC [ ? 1049 l`.
#[verifier::external_body]
fn write_leave_alt_screen(out: &mut String)
    ensures
        final(out)@ == old(out)@ + csi(seq!['?', '1', '0', '4', '9', 'l']),
{
    let _ = crossterm::Command::write_ansi(&crossterm::terminal::LeaveAlternateScreen, out);
}

/// The sequence that sets the window title: `ESC ] 0 ;`, the title, then BEL.
pub open spec fn title_sequence(title: Seq<char>) -> Seq<char> {
    seq!['\x1b', ']', '0', ';'] + title + seq!['\x07']
}

/// Calls `write_ansi` of crossterm's `SetTitle(title)`, which appends
/// `ESC ] 0 ;`, the title, then BEL.
#[verifier::external_body]
fn write_set_title(out: &mut String, title: &str)
    ensures
        final(out)@ == old(out)@ + title_sequence(title@),
{
    let _ = crossterm::Command::write_ansi(&crossterm::terminal::SetTitle(title), out);
}

/// Clear the entire screen.
pub fn clear_screen(out: &mut String)
    ensures
        final(out)@ == old(out)@ + csi(seq!['2', 'J']),
{
    write_clear_all(out);
}

/// Clear the current line.
pub fn clear_line(out: &mut String)
    ensures
        final(out)@ == old(out)@ + csi(seq!['2', 'K']),
{
    write_clear_current_line(out);
}

/// Move the cursor to the top left corner.
pub fn cursor_home(out: &mut String)
    ensures
        final(out)@ == old(out)@ + csi(seq!['1', ';', '1', 'H']),
{
    write_move_to(out, 0, 0);
    assert(decimal(1) =~= seq!['1']);
}

/// Move the cursor to column `x` and row `y`, counted from zero.
pub fn cursor_move_to(out: &mut String, x: u16, y: u16)
    requires
        x < u16::MAX,
        y < u16::MAX,
    ensures
        final(out)@ == old(out)@ + csi(decimal((y + 1) as nat) + seq![';'] + decimal((x + 1) as nat) + seq!['H']),
{
    write_move_to(out, x, y);
}

/// Move the cursor up `n` lines.
pub fn cursor_up(out: &mut String, n: u16)
    ensures
        final(out)@ == old(out)@ + csi(decimal(n as nat) + seq!['A']),
{
    write_move_up(out, n);
}

/// Move the cursor down `n` lines.
pub fn cursor_down(out: &mut String, n: u16)
    ensures
        final(out)@ == old(out)@ + csi(decimal(n as nat) + seq!['B']),
{
    write_move_down(out, n);
}

/// Move the cursor right `n` columns.
pub fn cursor_forward(out: &mut String, n: u16)
    ensures
        final(out)@ == old(out)@ + csi(decimal(n as nat) + seq!['C']),
{
    write_move_right(out, n);
}

/// Move the cursor left `n` columns.
pub fn cursor_backward(out: &mut String, n: u16)
    ensures
        final(out)@ == old(out)@ + csi(decimal(n as nat) + seq!['D']),
{
    write_move_left(out, n);
}

/// Hide the cursor.
pub fn hide_cursor(out: &mut String)
    ensures
        final(out)@ == old(out)@ + csi(seq!['?', '2', '5', 'l']),
{
    write_hide_cursor(out);
}

/// Show the cursor.
pub fn show_cursor(out: &mut String)
    ensures
        final(out)@ == old(out)@ + csi(seq!['?', '2', '5', 'h']),
{
    write_show_cursor(out);
}

/// Switch to the alternate screen.
pub fn enable_alt_screen(out: &mut String)
    ensures
        final(out)@ == old(out)@ + csi(seq!['?', '1', '0', '4', '9', 'h']),
{
    write_enter_alt_screen(out);
}

/// Switch back to the main screen.
pub fn disable_alt_screen(out: &mut String)
    ensures
        final(out)@ == old(out)@ + csi(seq!['?', '1', '0', '4', '9', 'l']),
{
    write_leave_alt_screen(out);
}

/// Set the window title.
pub fn set_title(out: &mut String, title: &str)
    ensures
        final(out)@ == old(out)@ + title_sequence(title@),
{
    write_set_title(out, title);
}

/// Ring the bell.
pub fn bell(out: &mut String)
    ensures
        final(out)@ == old(out)@.push('\x07'),
{
    push_char(out, '\x07');
}

} // verus!
