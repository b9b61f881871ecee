//! Terminal control sequences of the demo and the message it shows when
//! the terminal is too small.

use vstd::prelude::*;
use crate::text::{decimal, push_decimal, push_slice, ESC};

verus! {

/// `ESC [ ? 1049 h`: switch to the alternate screen.
pub open spec fn enter_alternate_screen() -> Seq<u8> {
    seq![ESC, 0x5bu8, 0x3fu8, 0x31u8, 0x30u8, 0x34u8, 0x39u8, 0x68u8]
}

/// `ESC [ ? 1049 l`: leave the alternate screen.
pub open spec fn exit_alternate_screen() -> Seq<u8> {
    seq![ESC, 0x5bu8, 0x3fu8, 0x31u8, 0x30u8, 0x34u8, 0x39u8, 0x6cu8]
}

/// `ESC [ ? 25 l`: hide the cursor.
pub open spec fn hide_cursor() -> Seq<u8> {
    seq![ESC, 0x5bu8, 0x3fu8, 0x32u8, 0x35u8, 0x6cu8]
}

/// `ESC [ ? 25 h`: show the cursor.
pub open spec fn show_cursor() -> Seq<u8> {
    seq![ESC, 0x5bu8, 0x3fu8, 0x32u8, 0x35u8, 0x68u8]
}

/// `ESC [ 2J`: clear the screen.
pub open spec fn clear_screen() -> Seq<u8> {
    seq![ESC, 0x5bu8, 0x32u8, 0x4au8]
}

/// `ESC [ H`: move the cursor to the top left corner.
pub open spec fn cursor_home() -> Seq<u8> {
    seq![ESC, 0x5bu8, 0x48u8]
}

/// `ESC [ ? 7 l`: stop wrapping at the right margin.
pub open spec fn disable_autowrap() -> Seq<u8> {
    seq![ESC, 0x5bu8, 0x3fu8, 0x37u8, 0x6cu8]
}

/// `ESC [ ? 7 h`: wrap at the right margin again.
pub open spec fn enable_autowrap() -> Seq<u8> {
    seq![ESC, 0x5bu8, 0x3fu8, 0x37u8, 0x68u8]
}

/// `ESC [ 0m`: reset text attributes.
pub open spec fn reset_attributes() -> Seq<u8> {
    seq![ESC, 0x5bu8, 0x30u8, 0x6du8]
}

/// Append `ESC [ H`.
pub fn push_cursor_home(output: &mut Vec<u8>)
    ensures
        final(output)@ == old(output)@ + cursor_home(),
{
    output.push(ESC);
    output.push(0x5b);
    output.push(0x48);
    assert(output@ =~= old(output)@ + cursor_home());
}

/// Append a screen clear followed by a move to the top left corner.
pub fn push_clear(output: &mut Vec<u8>)
    ensures
        final(output)@ == old(output)@ + clear_screen() + cursor_home(),
{
    output.push(ESC);
    output.push(0x5b);
    output.push(0x32);
    output.push(0x4a);
    assert(output@ =~= old(output)@ + clear_screen());
    push_cursor_home(output);
}

/// Number of lines of the too-small message.
pub const MESSAGE_LINES: usize = 6;

/// Line `k` of the too-small message.
#[verifier::opaque]
pub open spec fn message_line(k: int) -> Seq<u8> {
        if k == 0 {
            seq![0x4bu8, 0x6eu8, 0x69u8, 0x67u8, 0x68u8, 0x74u8, 0x74u8, 0x79u8, 0x20u8, 0x44u8, 0x65u8, 0x6du8, 0x6fu8]
        } else if k == 1 {
            Seq::empty()
        } else if k == 2 {
            seq![0x54u8, 0x65u8, 0x72u8, 0x6du8, 0x69u8, 0x6eu8, 0x61u8, 0x6cu8, 0x20u8, 0x69u8, 0x73u8, 0x20u8, 0x74u8, 0x6fu8, 0x6fu8, 0x20u8, 0x73u8, 0x6du8, 0x61u8, 0x6cu8, 0x6cu8, 0x2eu8]
        } else if k == 3 {
            seq![0x52u8, 0x65u8, 0x73u8, 0x69u8, 0x7au8, 0x65u8, 0x20u8, 0x74u8, 0x6fu8, 0x20u8, 0x61u8, 0x74u8, 0x20u8, 0x6cu8, 0x65u8, 0x61u8, 0x73u8, 0x74u8, 0x20u8, 0x36u8, 0x30u8, 0x20u8, 0x78u8, 0x20u8, 0x32u8, 0x34u8, 0x2eu8]
        } else if k == 4 {
            Seq::empty()
        } else {
            seq![0x50u8, 0x72u8, 0x65u8, 0x73u8, 0x73u8, 0x20u8, 0x71u8, 0x20u8, 0x6fu8, 0x72u8, 0x20u8, 0x45u8, 0x73u8, 0x63u8, 0x20u8, 0x74u8, 0x6fu8, 0x20u8, 0x65u8, 0x78u8, 0x69u8, 0x74u8, 0x2eu8]
        }
}

fn message_line_bytes(k: usize) -> (r: Vec<u8>)
    requires
        k < MESSAGE_LINES,
    ensures
        r@ == message_line(k as int),
{
    let v = {
        if k == 0 {
                vec![0x4bu8, 0x6eu8, 0x69u8, 0x67u8, 0x68u8, 0x74u8, 0x74u8, 0x79u8, 0x20u8, 0x44u8, 0x65u8, 0x6du8, 0x6fu8]
            } else if k == 1 {
                Vec::new()
            } else if k == 2 {
                vec![0x54u8, 0x65u8, 0x72u8, 0x6du8, 0x69u8, 0x6eu8, 0x61u8, 0x6cu8, 0x20u8, 0x69u8, 0x73u8, 0x20u8, 0x74u8, 0x6fu8, 0x6fu8, 0x20u8, 0x73u8, 0x6du8, 0x61u8, 0x6cu8, 0x6cu8, 0x2eu8]
            } else if k == 3 {
                vec![0x52u8, 0x65u8, 0x73u8, 0x69u8, 0x7au8, 0x65u8, 0x20u8, 0x74u8, 0x6fu8, 0x20u8, 0x61u8, 0x74u8, 0x20u8, 0x6cu8, 0x65u8, 0x61u8, 0x73u8, 0x74u8, 0x20u8, 0x36u8, 0x30u8, 0x20u8, 0x78u8, 0x20u8, 0x32u8, 0x34u8, 0x2eu8]
            } else if k == 4 {
                Vec::new()
            } else {
                vec![0x50u8, 0x72u8, 0x65u8, 0x73u8, 0x73u8, 0x20u8, 0x71u8, 0x20u8, 0x6fu8, 0x72u8, 0x20u8, 0x45u8, 0x73u8, 0x63u8, 0x20u8, 0x74u8, 0x6fu8, 0x20u8, 0x65u8, 0x78u8, 0x69u8, 0x74u8, 0x2eu8]
            }
    };
    assert(v@ =~= message_line(k as int)) by {
        reveal(message_line);
    }
    v
}

/// The row on which the message starts: centered, 1-based.
pub open spec fn message_start_row(rows: u16) -> nat {
    (if rows >= MESSAGE_LINES { (rows - MESSAGE_LINES) as nat } else { 0nat }) / 2 + 1
}

/// `line` at 1-based row `row`, cut to `cols` columns and centered.
pub open spec fn positioned_line(row: nat, cols: u16, line: Seq<u8>) -> Seq<u8> {
    let visible = if line.len() <= cols { line } else { line.take(cols as int) };
    let col = (cols - visible.len()) / 2 + 1;
    seq![ESC, 0x5bu8] + decimal(row) + seq![0x3bu8] + decimal(col as nat) + seq![0x48u8] + visible
}

/// The positioned message lines from line `k` on, stopping at the first
/// line below the last row (or at once on a terminal without columns).
pub open spec fn message_lines_from(cols: u16, rows: u16, k: int) -> Seq<u8>
    decreases MESSAGE_LINES - k,
{
    if k < 0 || k >= MESSAGE_LINES || message_start_row(rows) + k > rows || cols == 0 {
        Seq::empty()
    } else {
        positioned_line((message_start_row(rows) + k) as nat, cols, message_line(k)) + message_lines_from(cols, rows, k + 1)
    }
}

fn push_message_line(output: &mut Vec<u8>, row: usize, cols: u16, line: &[u8])
    requires
        row < 0x1_0000_0000,
    ensures
        final(output)@ == old(output)@ + positioned_line(row as nat, cols, line@),
{
    let visible: &[u8] = if line.len() <= cols as usize { line } else { &line[0..cols as usize] };
    assert(visible@ =~= (if line@.len() <= cols { line@ } else { line@.take(cols as int) }));
    let col = (cols as usize - visible.len()) / 2 + 1;
    output.push(ESC);
    output.push(0x5b);
    push_decimal(output, row as u64);
    output.push(0x3b);
    push_decimal(output, col as u64);
    output.push(0x48);
    push_slice(output, visible);
    assert(output@ =~= old(output)@ + positioned_line(row as nat, cols, line@));
}

/// The whole too-small message for a `cols` x `rows` terminal.
pub open spec fn spec_small_terminal_message(cols: u16, rows: u16) -> Seq<u8> {
    clear_screen() + cursor_home() + message_lines_from(cols, rows, 0)
}

/// Replace `output` with a centered message asking for a larger terminal.
pub fn encode_small_terminal_message(cols: u16, rows: u16, output: &mut Vec<u8>)
    ensures
        final(output)@ == spec_small_terminal_message(cols, rows),
{
    output.clear();
    push_clear(output);
    let start_row: usize = (if rows as usize >= MESSAGE_LINES { rows as usize - MESSAGE_LINES } else { 0 }) / 2 + 1;
    let mut index: usize = 0;
    while index < MESSAGE_LINES && !(start_row + index > rows as usize || cols == 0)
        invariant
            index <= MESSAGE_LINES,
            start_row == message_start_row(rows),
            spec_small_terminal_message(cols, rows) == output@ + message_lines_from(cols, rows, index as int),
        decreases MESSAGE_LINES - index,
    {
        let line = message_line_bytes(index);
        let ghost rest = message_lines_from(cols, rows, index + 1);
        let ghost before = output@;
        push_message_line(output, start_row + index, cols, line.as_slice());
        assert(message_lines_from(cols, rows, index as int) == positioned_line(
            (start_row + index) as nat, cols, message_line(index as int)) + rest);
        assert(before + (positioned_line((start_row + index) as nat, cols, message_line(index as int)) + rest)
            =~= output@ + rest);
        index = index + 1;
    }
    assert(message_lines_from(cols, rows, index as int) =~= Seq::<u8>::empty());
    assert(output@ + Seq::<u8>::empty() =~= output@);
}

/// How many message lines fit on a `cols` x `rows` terminal: none without
/// columns; else as many as there are rows from the start row down, at
/// most all of them.
pub open spec fn fitting_message_lines(cols: u16, rows: u16) -> int {
    let room: int = rows + 1 - message_start_row(rows);
    if cols == 0 || room <= 0 {
        0
    } else if room < MESSAGE_LINES {
        room
    } else {
        MESSAGE_LINES as int
    }
}

/// Message lines `k..n`, each on its row below the start row.
pub open spec fn message_range(cols: u16, rows: u16, k: int, n: int) -> Seq<u8>
    decreases n - k,
{
    if k < 0 || k >= n {
        Seq::empty()
    } else {
        positioned_line((message_start_row(rows) + k) as nat, cols, message_line(k)) + message_range(cols, rows, k + 1, n)
    }
}

proof fn lemma_message_lines_are_the_fitting_ones(cols: u16, rows: u16, k: int)
    requires
        0 <= k,
    ensures
        message_lines_from(cols, rows, k) == message_range(cols, rows, k, fitting_message_lines(cols, rows)),
    decreases MESSAGE_LINES - k,
{
    if k < MESSAGE_LINES && message_start_row(rows) + k <= rows && cols != 0 {
        lemma_message_lines_are_the_fitting_ones(cols, rows, k + 1);
    }
}

/// The too-small message replaces whatever the output held: it clears the
/// screen and homes the cursor, then writes line `k` of the message on row
/// `start + k` for as many lines as fit on the screen (none on a terminal
/// without columns or rows), each cut to the width.
pub proof fn lemma_small_message_layout(cols: u16, rows: u16)
    ensures
        spec_small_terminal_message(cols, rows)
            == clear_screen() + cursor_home() + message_range(cols, rows, 0, fitting_message_lines(cols, rows)),
        cols == 0 || rows == 0 ==> spec_small_terminal_message(cols, rows) == clear_screen() + cursor_home(),
        forall|k: int| 0 <= k < fitting_message_lines(cols, rows) ==> 1 <= #[trigger] (message_start_row(rows) + k) <= rows,
{
    lemma_message_lines_are_the_fitting_ones(cols, rows, 0);
    if cols == 0 || rows == 0 {
        assert(fitting_message_lines(cols, rows) == 0);
        assert(message_range(cols, rows, 0, 0) =~= Seq::<u8>::empty());
        assert(clear_screen() + cursor_home() + Seq::<u8>::empty() =~= clear_screen() + cursor_home());
    }
}

} // verus!
