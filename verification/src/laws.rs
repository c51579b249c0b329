//! Laws of the console model: what the writer's step functions guarantee
//! across whole strings, scrolls, and color changes.

use vstd::prelude::*;

use crate::vga_buffer::{
    printable, spec_blank, spec_blank_grid, spec_index, spec_render, spec_scroll, spec_write_byte,
    spec_write_bytes, BUFFER_CELLS, BUFFER_HEIGHT, BUFFER_WIDTH, NEWLINE, SUBSTITUTE,
};

verus! {

/// Writing a concatenation is writing the first part and then the second from
/// the state the first part left behind.
pub proof fn lemma_write_bytes_append(g: Seq<(u8, u8)>, col: int, color: u8, xs: Seq<u8>, ys: Seq<u8>)
    ensures
        spec_write_bytes(g, col, color, xs + ys) == ({
            let mid = spec_write_bytes(g, col, color, xs);
            spec_write_bytes(mid.0, mid.1, color, ys)
        }),
    decreases xs.len(),
{
    if xs.len() == 0 {
        assert(xs + ys =~= ys);
    } else {
        let whole = xs + ys;
        assert(whole[0] == xs[0]);
        let step = spec_write_byte(g, col, color, spec_render(xs[0]));
        assert(spec_write_bytes(g, col, color, whole) == spec_write_bytes(
            step.0,
            step.1,
            color,
            whole.subrange(1, whole.len() as int),
        ));
        assert(whole.subrange(1, whole.len() as int) =~= xs.subrange(1, xs.len() as int) + ys);
        lemma_write_bytes_append(step.0, step.1, color, xs.subrange(1, xs.len() as int), ys);
        assert(spec_write_bytes(g, col, color, xs) == spec_write_bytes(
            step.0,
            step.1,
            color,
            xs.subrange(1, xs.len() as int),
        ));
    }
}

/// Writing printable bytes that fit on the rest of the line fills the bottom
/// row cells from the cursor onward, in order and in the writer's color,
/// advances the column by the byte count, and touches no other cell.
pub proof fn lemma_fill_bottom_row(g: Seq<(u8, u8)>, col: int, color: u8, bs: Seq<u8>)
    requires
        g.len() == BUFFER_CELLS as int,
        0 <= col,
        col + bs.len() <= BUFFER_WIDTH as int,
        forall|i: int| 0 <= i < bs.len() ==> printable(#[trigger] bs[i]),
    ensures
        spec_write_bytes(g, col, color, bs).1 == col + bs.len(),
        spec_write_bytes(g, col, color, bs).0.len() == BUFFER_CELLS as int,
        forall|i: int|
            0 <= i < bs.len() ==> spec_write_bytes(g, col, color, bs).0[spec_index(
                BUFFER_HEIGHT as int - 1,
                col + i,
            )] == (#[trigger] bs[i], color),
        forall|j: int|
            0 <= j < BUFFER_CELLS as int && !(spec_index(BUFFER_HEIGHT as int - 1, col) <= j
                < spec_index(BUFFER_HEIGHT as int - 1, col) + bs.len())
                ==> #[trigger] spec_write_bytes(g, col, color, bs).0[j] == g[j],
    decreases bs.len(),
{
    if bs.len() > 0 {
        let b = bs[0];
        assert(printable(b));
        assert(spec_render(b) == b);
        assert(b != NEWLINE);
        assert(col < BUFFER_WIDTH as int);
        let bottom = spec_index(BUFFER_HEIGHT as int - 1, col);
        let g1 = g.update(bottom, (b, color));
        let step = spec_write_byte(g, col, color, spec_render(b));
        assert(step == (g1, col + 1));
        let rest = bs.subrange(1, bs.len() as int);
        assert(forall|i: int| 0 <= i < rest.len() ==> printable(#[trigger] rest[i]));
        lemma_fill_bottom_row(g1, col + 1, color, rest);
        assert(spec_write_bytes(g, col, color, bs) == spec_write_bytes(g1, col + 1, color, rest));
        let out = spec_write_bytes(g, col, color, bs).0;
        assert forall|i: int| 0 <= i < bs.len() implies out[spec_index(
            BUFFER_HEIGHT as int - 1,
            col + i,
        )] == (bs[i], color) by {
            if i == 0 {
                assert(out[bottom] == g1[bottom]);
            } else {
                assert(rest[i - 1] == bs[i]);
                assert(spec_index(BUFFER_HEIGHT as int - 1, col + i) == spec_index(
                    BUFFER_HEIGHT as int - 1,
                    (col + 1) + (i - 1),
                ));
            }
        }
    }
}

/// Round trip: writing a printable string that fits on one line to the empty
/// console leaves exactly its bytes on the bottom row, in order, each paired
/// with the writer's current color.
pub proof fn lemma_round_trip(color: u8, bs: Seq<u8>)
    requires
        bs.len() <= BUFFER_WIDTH as int,
        forall|i: int| 0 <= i < bs.len() ==> printable(#[trigger] bs[i]),
    ensures
        forall|i: int|
            0 <= i < bs.len() ==> spec_write_bytes(spec_blank_grid(color), 0, color, bs).0[
                spec_index(BUFFER_HEIGHT as int - 1, i)] == (#[trigger] bs[i], color),
        spec_write_bytes(spec_blank_grid(color), 0, color, bs).1 == bs.len(),
{
    lemma_fill_bottom_row(spec_blank_grid(color), 0, color, bs);
}

/// A byte outside the printable range that is not the line feed is rendered
/// as the fixed placeholder glyph, never as itself.
pub proof fn lemma_substitution(b: u8)
    ensures
        !printable(b) && b != NEWLINE ==> spec_render(b) == SUBSTITUTE,
        printable(b) || b == NEWLINE ==> spec_render(b) == b,
{
}

/// No write ever places a raw input byte on screen: after writing any bytes,
/// every cell either already stood somewhere in the grid, is a blank left by
/// a scroll or clear, or holds a rendered byte of the input in the writer's
/// color.
pub proof fn lemma_no_raw_bytes(g: Seq<(u8, u8)>, col: int, color: u8, bs: Seq<u8>)
    requires
        g.len() == BUFFER_CELLS as int,
        0 <= col <= BUFFER_WIDTH as int,
    ensures
        spec_write_bytes(g, col, color, bs).0.len() == BUFFER_CELLS as int,
        forall|j: int|
            0 <= j < BUFFER_CELLS as int ==> (exists|k: int|
                0 <= k < BUFFER_CELLS as int && #[trigger] spec_write_bytes(g, col, color, bs).0[j]
                    == g[k]) || spec_write_bytes(g, col, color, bs).0[j] == spec_blank(color) || (
            exists|i: int|
                0 <= i < bs.len() && spec_write_bytes(g, col, color, bs).0[j] == (
                spec_render(#[trigger] bs[i]),
                color,
            )),
    decreases bs.len(),
{
    if bs.len() > 0 {
        let step = spec_write_byte(g, col, color, spec_render(bs[0]));
        let rest = bs.subrange(1, bs.len() as int);
        assert(step.0.len() == BUFFER_CELLS as int);
        assert forall|j: int| 0 <= j < BUFFER_CELLS as int implies (exists|k: int|
            0 <= k < BUFFER_CELLS as int && #[trigger] step.0[j] == g[k]) || step.0[j]
            == spec_blank(color) || step.0[j] == (spec_render(bs[0]), color) by {
            if spec_render(bs[0]) == NEWLINE {
                if j + (BUFFER_WIDTH as int) < (BUFFER_CELLS as int) {
                    assert(step.0[j] == g[j + BUFFER_WIDTH as int]);
                } else {
                    assert(step.0[j] == spec_blank(color));
                }
            } else if col >= (BUFFER_WIDTH as int) {
                if j == spec_index(BUFFER_HEIGHT as int - 1, 0) {
                    assert(step.0[j] == (spec_render(bs[0]), color));
                } else if j + (BUFFER_WIDTH as int) < (BUFFER_CELLS as int) {
                    assert(step.0[j] == g[j + BUFFER_WIDTH as int]);
                } else {
                    assert(step.0[j] == spec_blank(color));
                }
            } else {
                if j == spec_index(BUFFER_HEIGHT as int - 1, col) {
                    assert(step.0[j] == (spec_render(bs[0]), color));
                } else {
                    assert(step.0[j] == g[j]);
                }
            }
        }
        lemma_no_raw_bytes(step.0, step.1, color, rest);
        assert(spec_write_bytes(g, col, color, bs) == spec_write_bytes(
            step.0,
            step.1,
            color,
            rest,
        ));
        let out = spec_write_bytes(g, col, color, bs).0;
        assert forall|j: int| 0 <= j < BUFFER_CELLS as int implies (exists|k: int|
            0 <= k < BUFFER_CELLS as int && #[trigger] out[j] == g[k]) || out[j] == spec_blank(
            color,
        ) || (exists|i: int|
            0 <= i < bs.len() && out[j] == (spec_render(#[trigger] bs[i]), color)) by {
            if exists|k: int| 0 <= k < BUFFER_CELLS as int && out[j] == #[trigger] step.0[k] {
                let k = choose|k: int|
                    0 <= k < BUFFER_CELLS as int && out[j] == #[trigger] step.0[k];
                assert((exists|k2: int|
                    0 <= k2 < BUFFER_CELLS as int && #[trigger] step.0[k] == g[k2]) || step.0[k]
                    == spec_blank(color) || step.0[k] == (spec_render(bs[0]), color));
            } else if exists|i: int|
                0 <= i < rest.len() && out[j] == (spec_render(#[trigger] rest[i]), color) {
                let i = choose|i: int|
                    0 <= i < rest.len() && out[j] == (spec_render(#[trigger] rest[i]), color);
                assert(rest[i] == bs[i + 1]);
            }
        }
    }
}

/// Changing only the writer's color and writing again printable text that
/// fits on the line alters no cell outside the freshly written range: cells
/// written earlier keep their characters and their colors.
pub proof fn lemma_color_change_preserves(g: Seq<(u8, u8)>, col: int, new_color: u8, bs: Seq<u8>)
    requires
        g.len() == BUFFER_CELLS as int,
        0 <= col,
        col + bs.len() <= BUFFER_WIDTH as int,
        forall|i: int| 0 <= i < bs.len() ==> printable(#[trigger] bs[i]),
    ensures
        forall|j: int|
            0 <= j < BUFFER_CELLS as int && !(spec_index(BUFFER_HEIGHT as int - 1, col) <= j
                < spec_index(BUFFER_HEIGHT as int - 1, col) + bs.len())
                ==> #[trigger] spec_write_bytes(g, col, new_color, bs).0[j] == g[j],
{
    lemma_fill_bottom_row(g, col, new_color, bs);
}

/// Wrap: a printable string longer than one line scrolls once; the row above
/// the bottom then holds its first `BUFFER_WIDTH` bytes and the bottom row
/// holds the remainder from column 0, all in the writer's color.
pub proof fn lemma_wrap(g: Seq<(u8, u8)>, color: u8, bs: Seq<u8>)
    requires
        g.len() == BUFFER_CELLS as int,
        (BUFFER_WIDTH as int) < bs.len() <= 2 * (BUFFER_WIDTH as int),
        forall|i: int| 0 <= i < bs.len() ==> printable(#[trigger] bs[i]),
    ensures
        spec_write_bytes(g, 0, color, bs).1 == bs.len() - BUFFER_WIDTH as int,
        forall|i: int|
            0 <= i < BUFFER_WIDTH as int ==> #[trigger] spec_write_bytes(g, 0, color, bs).0[
                spec_index(BUFFER_HEIGHT as int - 2, i)] == (bs[i], color),
        forall|i: int|
            0 <= i < bs.len() - BUFFER_WIDTH as int ==> #[trigger] spec_write_bytes(g, 0, color, bs).0[
                spec_index(BUFFER_HEIGHT as int - 1, i)] == (bs[BUFFER_WIDTH as int + i], color),
{
    let head = bs.subrange(0, BUFFER_WIDTH as int);
    let tail = bs.subrange(BUFFER_WIDTH as int, bs.len() as int);
    assert(head + tail =~= bs);
    lemma_write_bytes_append(g, 0, color, head, tail);
    assert(forall|i: int| 0 <= i < head.len() ==> printable(#[trigger] head[i]));
    lemma_fill_bottom_row(g, 0, color, head);
    let mid = spec_write_bytes(g, 0, color, head);
    assert(mid.1 == BUFFER_WIDTH as int);
    let b = tail[0];
    assert(printable(b) && spec_render(b) == b && b != NEWLINE);
    let scrolled = spec_scroll(mid.0, color);
    let g2 = scrolled.update(spec_index(BUFFER_HEIGHT as int - 1, 0), (b, color));
    assert(spec_write_byte(mid.0, mid.1, color, spec_render(b)) == (g2, 1int));
    let rest = tail.subrange(1, tail.len() as int);
    assert(spec_write_bytes(mid.0, mid.1, color, tail) == spec_write_bytes(g2, 1, color, rest));
    assert(forall|i: int| 0 <= i < rest.len() ==> printable(#[trigger] rest[i]));
    lemma_fill_bottom_row(g2, 1, color, rest);
    let out = spec_write_bytes(g, 0, color, bs);
    assert(out == spec_write_bytes(g2, 1, color, rest));
    assert forall|i: int| 0 <= i < BUFFER_WIDTH as int implies out.0[spec_index(
        BUFFER_HEIGHT as int - 2,
        i,
    )] == (bs[i], color) by {
        let j = spec_index(BUFFER_HEIGHT as int - 2, i);
        assert(j + BUFFER_WIDTH as int == spec_index(BUFFER_HEIGHT as int - 1, i));
        assert(j < spec_index(BUFFER_HEIGHT as int - 1, 0));
        assert(out.0[j] == g2[j]);
        assert(g2[j] == scrolled[j]);
        assert(scrolled[j] == mid.0[spec_index(BUFFER_HEIGHT as int - 1, i)]);
        assert(mid.0[spec_index(BUFFER_HEIGHT as int - 1, 0 + i)] == (head[i], color));
        assert(head[i] == bs[i]);
    }
    assert forall|i: int| 0 <= i < bs.len() - BUFFER_WIDTH as int implies #[trigger] out.0[
        spec_index(BUFFER_HEIGHT as int - 1, i)] == (bs[BUFFER_WIDTH as int + i], color) by {
        if i == 0 {
            let j = spec_index(BUFFER_HEIGHT as int - 1, 0);
            assert(!(spec_index(BUFFER_HEIGHT as int - 1, 1) <= j < spec_index(
                BUFFER_HEIGHT as int - 1,
                1,
            ) + rest.len()));
            assert(out.0[j] == g2[j]);
            assert(g2[j] == (b, color));
            assert(b == bs[BUFFER_WIDTH as int]);
        } else {
            assert(out.0[spec_index(BUFFER_HEIGHT as int - 1, 1 + (i - 1))] == (
                rest[i - 1],
                color,
            ));
            assert(rest[i - 1] == bs[BUFFER_WIDTH as int + i]);
        }
    }
}

/// Whether a line may stand in a scroll history: printable and at most one
/// row wide.
pub open spec fn spec_line_ok(line: Seq<u8>) -> bool {
    line.len() <= BUFFER_WIDTH as int && forall|i: int|
        0 <= i < line.len() ==> printable(#[trigger] line[i])
}

/// The byte stream of a sequence of newline-terminated lines.
pub open spec fn spec_lines_bytes(lines: Seq<Seq<u8>>) -> Seq<u8>
    decreases lines.len(),
{
    if lines.len() == 0 {
        Seq::empty()
    } else {
        spec_lines_bytes(lines.drop_last()) + lines.last().push(NEWLINE)
    }
}

/// What a row above the current line shows after a history of lines: the
/// line whose index lines it up with the bottom of the history, padded with
/// blanks — or a blank row where no line has reached yet.
pub open spec fn spec_history_cell(color: u8, lines: Seq<Seq<u8>>, row: int, c: int) -> (u8, u8) {
    let k = lines.len() - (BUFFER_HEIGHT as int - 1) + row;
    if 0 <= k < lines.len() && c < lines[k].len() {
        (lines[k][c], color)
    } else {
        spec_blank(color)
    }
}

/// Scroll invariant: after any number of newline-terminated writes to the
/// empty console the cursor is back at column 0 and the bottom row is the
/// blank current line. Each row above shows its slot of the history: while
/// fewer lines than rows have been written the rows above them are untouched
/// blanks, and from then on exactly the most recent `BUFFER_HEIGHT - 1`
/// lines remain visible above the current line, in order.
pub proof fn lemma_scroll_history(color: u8, lines: Seq<Seq<u8>>)
    requires
        forall|k: int| 0 <= k < lines.len() ==> spec_line_ok(#[trigger] lines[k]),
    ensures
        spec_write_bytes(spec_blank_grid(color), 0, color, spec_lines_bytes(lines)).1 == 0,
        spec_write_bytes(spec_blank_grid(color), 0, color, spec_lines_bytes(lines)).0.len()
            == BUFFER_CELLS as int,
        forall|row: int, c: int|
            0 <= row < BUFFER_HEIGHT as int - 1 && 0 <= c < BUFFER_WIDTH as int
                ==> #[trigger] spec_write_bytes(spec_blank_grid(color), 0, color, spec_lines_bytes(
                lines,
            )).0[spec_index(row, c)] == spec_history_cell(color, lines, row, c),
        forall|c: int|
            0 <= c < BUFFER_WIDTH as int ==> #[trigger] spec_write_bytes(
                spec_blank_grid(color),
                0,
                color,
                spec_lines_bytes(lines),
            ).0[spec_index(BUFFER_HEIGHT as int - 1, c)] == spec_blank(color),
    decreases lines.len(),
{
    let g0 = spec_blank_grid(color);
    if lines.len() == 0 {
        assert(spec_write_bytes(g0, 0, color, spec_lines_bytes(lines)) == (g0, 0int));
        assert forall|row: int, c: int|
            0 <= row < BUFFER_HEIGHT as int - 1 && 0 <= c < BUFFER_WIDTH as int implies g0[
            spec_index(row, c)] == spec_history_cell(color, lines, row, c) by {
            assert(0 <= spec_index(row, c) < BUFFER_CELLS as int);
        }
        assert forall|c: int| 0 <= c < BUFFER_WIDTH as int implies #[trigger] g0[spec_index(
            BUFFER_HEIGHT as int - 1,
            c,
        )] == spec_blank(color) by {
            assert(0 <= spec_index(BUFFER_HEIGHT as int - 1, c) < BUFFER_CELLS as int);
        }
    } else {
        let init = lines.drop_last();
        let last = lines.last();
        assert(spec_line_ok(last));
        assert(forall|k: int| 0 <= k < init.len() ==> #[trigger] init[k] == lines[k]);
        lemma_scroll_history(color, init);
        let s1 = spec_write_bytes(g0, 0, color, spec_lines_bytes(init));
        assert(spec_lines_bytes(lines) == spec_lines_bytes(init) + last.push(NEWLINE));
        lemma_write_bytes_append(g0, 0, color, spec_lines_bytes(init), last.push(NEWLINE));
        crate::vga_buffer::lemma_write_bytes_snoc(s1.0, s1.1, color, last, NEWLINE);
        assert(forall|i: int| 0 <= i < last.len() ==> printable(#[trigger] last[i]));
        lemma_fill_bottom_row(s1.0, 0, color, last);
        let s2 = spec_write_bytes(s1.0, 0, color, last);
        assert(spec_render(NEWLINE) == NEWLINE);
        let s3 = spec_write_byte(s2.0, s2.1, color, NEWLINE);
        assert(s3 == (spec_scroll(s2.0, color), 0int));
        let out = spec_write_bytes(g0, 0, color, spec_lines_bytes(lines));
        assert(out == s3);
        assert forall|row: int, c: int|
            0 <= row < BUFFER_HEIGHT as int - 1 && 0 <= c < BUFFER_WIDTH as int implies out.0[
            spec_index(row, c)] == spec_history_cell(color, lines, row, c) by {
            assert(spec_index(row, c) + BUFFER_WIDTH as int == spec_index(row + 1, c));
            assert(0 <= spec_index(row, c));
            assert(spec_index(row + 1, c) < BUFFER_CELLS as int);
            assert(out.0[spec_index(row, c)] == s2.0[spec_index(row + 1, c)]);
            if row + 1 < BUFFER_HEIGHT as int - 1 {
                assert(spec_index(row + 1, c) < spec_index(BUFFER_HEIGHT as int - 1, 0));
                assert(s2.0[spec_index(row + 1, c)] == s1.0[spec_index(row + 1, c)]);
                assert(s1.0[spec_index(row + 1, c)] == spec_history_cell(color, init, row + 1, c));
                let k = lines.len() - (BUFFER_HEIGHT as int - 1) + row;
                assert(init.len() - (BUFFER_HEIGHT as int - 1) + (row + 1) == k);
                if 0 <= k < init.len() {
                    assert(init[k] == lines[k]);
                }
                assert(spec_history_cell(color, init, row + 1, c) == spec_history_cell(
                    color,
                    lines,
                    row,
                    c,
                ));
            } else {
                let k = lines.len() - 1;
                assert(lines[k] == last);
                if c < last.len() {
                    assert(s2.0[spec_index(BUFFER_HEIGHT as int - 1, 0 + c)] == (last[c], color));
                } else {
                    assert(!(spec_index(BUFFER_HEIGHT as int - 1, 0) <= spec_index(
                        BUFFER_HEIGHT as int - 1,
                        c,
                    ) < spec_index(BUFFER_HEIGHT as int - 1, 0) + last.len()));
                    assert(s2.0[spec_index(BUFFER_HEIGHT as int - 1, c)] == s1.0[spec_index(
                        BUFFER_HEIGHT as int - 1,
                        c,
                    )]);
                    assert(s1.0[spec_index(BUFFER_HEIGHT as int - 1, c)] == spec_blank(color));
                }
            }
        }
        assert forall|c: int| 0 <= c < BUFFER_WIDTH as int implies #[trigger] out.0[spec_index(
            BUFFER_HEIGHT as int - 1,
            c,
        )] == spec_blank(color) by {
            assert(spec_index(BUFFER_HEIGHT as int - 1, c) + BUFFER_WIDTH as int
                >= BUFFER_CELLS as int);
        }
    }
}

} // verus!
