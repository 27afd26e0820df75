//! ANSI truecolor rendering of keyframes and deltas with the lower half-block glyph.
use vstd::prelude::*;
use crate::format::{Cell, DeltaCell};

verus! {

/// The decimal digits of `v`, most significant first, without leading zeros.
pub open spec fn decimal(v: nat) -> Seq<u8>
    decreases v,
{
    if v < 10 {
        seq![(48 + v) as u8]
    } else {
        decimal(v / 10) + seq![(48 + v % 10) as u8]
    }
}

/// The UTF-8 bytes of U+2584, the lower half block.
pub open spec fn glyph() -> Seq<u8> {
    seq![0xe2u8, 0x96u8, 0x84u8]
}

/// `ESC [ H`: cursor home.
pub open spec fn home() -> Seq<u8> {
    seq![0x1bu8, 0x5bu8, 0x48u8]
}

/// `ESC [ 0 m`: reset colors.
pub open spec fn reset() -> Seq<u8> {
    seq![0x1bu8, 0x5bu8, 0x30u8, 0x6du8]
}

/// Carriage return, line feed.
pub open spec fn crlf() -> Seq<u8> {
    seq![0x0du8, 0x0au8]
}

/// `ESC [ <d>8 ; 2 ; r ; g ; b m`: a truecolor SGR, `d` being the digit 4 (background)
/// or 3 (foreground).
pub open spec fn color_sgr(d: u8, r: u8, g: u8, b: u8) -> Seq<u8> {
    seq![0x1bu8, 0x5bu8, d, 0x38u8, 0x3bu8, 0x32u8, 0x3bu8] + decimal(r as nat) + seq![0x3bu8]
        + decimal(g as nat) + seq![0x3bu8] + decimal(b as nat) + seq![0x6du8]
}

/// The background SGR of a cell: `ESC [ 48 ; 2 ; r ; g ; b m`.
pub open spec fn bg_sgr(c: Cell) -> Seq<u8> {
    color_sgr(0x34, c.bg_r, c.bg_g, c.bg_b)
}

/// The foreground SGR of a cell: `ESC [ 38 ; 2 ; r ; g ; b m`.
pub open spec fn fg_sgr(c: Cell) -> Seq<u8> {
    color_sgr(0x33, c.fg_r, c.fg_g, c.fg_b)
}

/// `ESC [ row ; col H`: cursor to a 1-indexed position.
pub open spec fn cursor(row: nat, col: nat) -> Seq<u8> {
    seq![0x1bu8, 0x5bu8] + decimal(row) + seq![0x3bu8] + decimal(col) + seq![0x48u8]
}

pub open spec fn same_bg(a: Cell, b: Cell) -> bool {
    a.bg_r == b.bg_r && a.bg_g == b.bg_g && a.bg_b == b.bg_b
}

pub open spec fn same_fg(a: Cell, b: Cell) -> bool {
    a.fg_r == b.fg_r && a.fg_g == b.fg_g && a.fg_b == b.fg_b
}

/// The bytes of grid cell `i`: its background SGR unless the previous cell has the same
/// background, likewise its foreground SGR, then the glyph.
pub open spec fn cell_render(cells: Seq<Cell>, i: int) -> Seq<u8> {
    (if i == 0 || !same_bg(cells[i], cells[i - 1]) {
        bg_sgr(cells[i])
    } else {
        Seq::empty()
    }) + (if i == 0 || !same_fg(cells[i], cells[i - 1]) {
        fg_sgr(cells[i])
    } else {
        Seq::empty()
    }) + glyph()
}

/// The bytes of the first `k` cells of row `row`.
pub open spec fn row_render(cells: Seq<Cell>, cols: nat, row: nat, k: nat) -> Seq<u8>
    decreases k,
{
    if k == 0 {
        Seq::empty()
    } else {
        row_render(cells, cols, row, (k - 1) as nat) + cell_render(cells, row * cols + k - 1)
    }
}

/// The bytes of the first `r` rows, separated by CR LF.
pub open spec fn rows_render(cells: Seq<Cell>, cols: nat, r: nat) -> Seq<u8>
    decreases r,
{
    if r == 0 {
        Seq::empty()
    } else {
        rows_render(cells, cols, (r - 1) as nat) + (if r > 1 {
            crlf()
        } else {
            Seq::empty()
        }) + row_render(cells, cols, (r - 1) as nat, cols)
    }
}

/// The bytes of a keyframe render: home, the rows, reset.
pub open spec fn keyframe_render(cells: Seq<Cell>, cols: u16, rows: u16) -> Seq<u8> {
    home() + rows_render(cells, cols as nat, rows as nat) + reset()
}

/// The bytes of one delta cell: cursor to its 1-indexed position, both SGRs, the glyph.
pub open spec fn delta_render(d: DeltaCell) -> Seq<u8> {
    cursor((d.y + 1) as nat, (d.x + 1) as nat) + bg_sgr(d.cell) + fg_sgr(d.cell) + glyph()
}

/// The bytes of a delta render: each delta cell in order.
pub open spec fn deltas_render(ds: Seq<DeltaCell>) -> Seq<u8>
    decreases ds.len(),
{
    if ds.len() == 0 {
        Seq::empty()
    } else {
        deltas_render(ds.drop_last()) + delta_render(ds.last())
    }
}

/// Appends the decimal digits of a `u8` (0-255), no allocation.
fn write_u8(buf: &mut Vec<u8>, v: u8)
    ensures
        final(buf)@ == old(buf)@ + decimal(v as nat),
{
    let ghost n = v as nat;
    if v >= 100 {
        buf.push(48u8 + v / 100);
        buf.push(48u8 + (v / 10) % 10);
        buf.push(48u8 + v % 10);
        assert(decimal(n / 100) == seq![(48 + n / 100) as u8]);
        assert((n / 10) / 10 == n / 100);
        assert(decimal(n / 10) == decimal(n / 100) + seq![(48 + (n / 10) % 10) as u8]);
    } else if v >= 10 {
        buf.push(48u8 + v / 10);
        buf.push(48u8 + v % 10);
        assert(decimal(n / 10) == seq![(48 + n / 10) as u8]);
    } else {
        buf.push(48u8 + v);
    }
    assert(final(buf)@ =~= old(buf)@ + decimal(n));
}

/// Appends the decimal digits of a `u16`, no allocation.
fn write_u16(buf: &mut Vec<u8>, v: u16)
    ensures
        final(buf)@ == old(buf)@ + decimal(v as nat),
{
    let ghost n = v as nat;
    proof {
        assert((n / 10) / 10 == n / 100);
        assert((n / 100) / 10 == n / 1000);
        assert((n / 1000) / 10 == n / 10000);
    }
    if v >= 10000 {
        buf.push(48u8 + (v / 10000) as u8);
        buf.push(48u8 + ((v / 1000) % 10) as u8);
        buf.push(48u8 + ((v / 100) % 10) as u8);
        buf.push(48u8 + ((v / 10) % 10) as u8);
        buf.push(48u8 + (v % 10) as u8);
        assert(decimal(n / 10000) == seq![(48 + n / 10000) as u8]);
        assert(decimal(n / 1000) == decimal(n / 10000) + seq![(48 + (n / 1000) % 10) as u8]);
        assert(decimal(n / 100) == decimal(n / 1000) + seq![(48 + (n / 100) % 10) as u8]);
        assert(decimal(n / 10) == decimal(n / 100) + seq![(48 + (n / 10) % 10) as u8]);
    } else if v >= 1000 {
        buf.push(48u8 + (v / 1000) as u8);
        buf.push(48u8 + ((v / 100) % 10) as u8);
        buf.push(48u8 + ((v / 10) % 10) as u8);
        buf.push(48u8 + (v % 10) as u8);
        assert(decimal(n / 1000) == seq![(48 + n / 1000) as u8]);
        assert(decimal(n / 100) == decimal(n / 1000) + seq![(48 + (n / 100) % 10) as u8]);
        assert(decimal(n / 10) == decimal(n / 100) + seq![(48 + (n / 10) % 10) as u8]);
    } else if v >= 100 {
        buf.push(48u8 + (v / 100) as u8);
        buf.push(48u8 + ((v / 10) % 10) as u8);
        buf.push(48u8 + (v % 10) as u8);
        assert(decimal(n / 100) == seq![(48 + n / 100) as u8]);
        assert(decimal(n / 10) == decimal(n / 100) + seq![(48 + (n / 10) % 10) as u8]);
    } else if v >= 10 {
        buf.push(48u8 + (v / 10) as u8);
        buf.push(48u8 + (v % 10) as u8);
        assert(decimal(n / 10) == seq![(48 + n / 10) as u8]);
    } else {
        buf.push(48u8 + v as u8);
    }
    assert(final(buf)@ =~= old(buf)@ + decimal(n));
}

/// Appends a truecolor SGR with selector digit `d`.
fn write_color(buf: &mut Vec<u8>, d: u8, r: u8, g: u8, b: u8)
    ensures
        final(buf)@ == old(buf)@ + color_sgr(d, r, g, b),
{
    buf.push(0x1b);
    buf.push(0x5b);
    buf.push(d);
    buf.push(0x38);
    buf.push(0x3b);
    buf.push(0x32);
    buf.push(0x3b);
    write_u8(buf, r);
    buf.push(0x3b);
    write_u8(buf, g);
    buf.push(0x3b);
    write_u8(buf, b);
    buf.push(0x6d);
    assert(final(buf)@ =~= old(buf)@ + color_sgr(d, r, g, b));
}

/// Appends `ESC [ 48 ; 2 ; r ; g ; b m`.
fn write_bg(buf: &mut Vec<u8>, r: u8, g: u8, b: u8)
    ensures
        final(buf)@ == old(buf)@ + color_sgr(0x34, r, g, b),
{
    write_color(buf, 0x34, r, g, b);
}

/// Appends `ESC [ 38 ; 2 ; r ; g ; b m`.
fn write_fg(buf: &mut Vec<u8>, r: u8, g: u8, b: u8)
    ensures
        final(buf)@ == old(buf)@ + color_sgr(0x33, r, g, b),
{
    write_color(buf, 0x33, r, g, b);
}

/// Appends the decimal digits of a 1-indexed position (at most 65536), no allocation.
fn write_position(buf: &mut Vec<u8>, v: u32)
    requires
        v <= 65536,
    ensures
        final(buf)@ == old(buf)@ + decimal(v as nat),
{
    if v > 0xffff {
        write_u16(buf, (v / 10) as u16);
        buf.push(48u8 + (v % 10) as u8);
        assert(final(buf)@ =~= old(buf)@ + decimal(v as nat));
    } else {
        write_u16(buf, v as u16);
    }
}

/// Appends `ESC [ row ; col H`.
fn write_cursor_pos(buf: &mut Vec<u8>, row: u32, col: u32)
    requires
        row <= 65536,
        col <= 65536,
    ensures
        final(buf)@ == old(buf)@ + cursor(row as nat, col as nat),
{
    buf.push(0x1b);
    buf.push(0x5b);
    write_position(buf, row);
    buf.push(0x3b);
    write_position(buf, col);
    buf.push(0x48);
    assert(final(buf)@ =~= old(buf)@ + cursor(row as nat, col as nat));
}

/// Appends the half-block glyph.
fn write_glyph(buf: &mut Vec<u8>)
    ensures
        final(buf)@ == old(buf)@ + glyph(),
{
    buf.push(0xe2);
    buf.push(0x96);
    buf.push(0x84);
    assert(final(buf)@ =~= old(buf)@ + glyph());
}

proof fn lemma_cell_index(row: int, col: int, cols: int, rows: int)
    requires
        0 <= row < rows,
        0 <= col < cols,
    ensures
        0 <= row * cols,
        row * cols + col < rows * cols,
        row * cols + cols <= rows * cols,
        (row + 1) * cols == row * cols + cols,
{
    assert(0 <= row * cols) by (nonlinear_arith)
        requires
            0 <= row,
            0 <= cols,
    ;
    assert(row * cols + cols <= rows * cols) by (nonlinear_arith)
        requires
            row < rows,
            0 <= cols,
    ;
    assert((row + 1) * cols == row * cols + cols) by (nonlinear_arith);
}

/// Renders a full keyframe into `buf`, row by row: a color escape is written only
/// where the color differs from the previous cell's.
pub fn render_keyframe(cells: &[Cell], cols: u16, rows: u16, buf: &mut Vec<u8>)
    requires
        cells@.len() >= cols * rows,
    ensures
        final(buf)@ == keyframe_render(cells@, cols, rows),
{
    buf.clear();
    buf.push(0x1b);
    buf.push(0x5b);
    buf.push(0x48);
    assert(buf@ =~= home() + rows_render(cells@, cols as nat, 0));
    let ncols = cols as usize;
    let nrows = rows as usize;
    let n = cells.len();
    let mut prev = Cell { bg_r: 255, bg_g: 255, bg_b: 255, fg_r: 255, fg_g: 255, fg_b: 255 };
    let mut first = true;
    let mut row: usize = 0;
    while row < nrows
        invariant
            ncols == cols,
            nrows == rows,
            cells@.len() >= cols * rows,
            n == cells@.len(),
            row <= nrows,
            first == (row * ncols == 0),
            !first ==> prev == cells@[row * ncols - 1],
            buf@ == home() + rows_render(cells@, ncols as nat, row as nat),
        decreases nrows - row,
    {
        let ghost before = buf@;
        if row > 0 {
            buf.push(0x0d);
            buf.push(0x0a);
        }
        let ghost sep = if row > 0 { crlf() } else { Seq::<u8>::empty() };
        assert(buf@ =~= before + sep + row_render(cells@, ncols as nat, row as nat, 0));
        let mut col: usize = 0;
        while col < ncols
            invariant
                ncols == cols,
                nrows == rows,
                cells@.len() >= cols * rows,
                n == cells@.len(),
                row < nrows,
                col <= ncols,
                first == (row * ncols + col == 0),
                !first ==> prev == cells@[row * ncols + col - 1],
                buf@ == before + sep + row_render(cells@, ncols as nat, row as nat, col as nat),
            decreases ncols - col,
        {
            proof {
                lemma_cell_index(row as int, col as int, ncols as int, nrows as int);
            }
            let ghost start = buf@;
            let ghost i = row * ncols + col;
            let cell = cells[row * ncols + col];
            if first || !(cell.bg_r == prev.bg_r && cell.bg_g == prev.bg_g && cell.bg_b
                == prev.bg_b) {
                write_bg(buf, cell.bg_r, cell.bg_g, cell.bg_b);
            }
            let ghost mid = buf@;
            if first || !(cell.fg_r == prev.fg_r && cell.fg_g == prev.fg_g && cell.fg_b
                == prev.fg_b) {
                write_fg(buf, cell.fg_r, cell.fg_g, cell.fg_b);
            }
            write_glyph(buf);
            prev = cell;
            first = false;
            proof {
                assert(buf@ =~= start + cell_render(cells@, i));
            }
            col = col + 1;
        }
        proof {
            assert((row + 1) * ncols == row * ncols + ncols) by (nonlinear_arith);
            assert(row * ncols >= 0) by (nonlinear_arith)
                requires
                    row >= 0,
                    ncols >= 0,
            ;
        }
        row = row + 1;
    }
    buf.push(0x1b);
    buf.push(0x5b);
    buf.push(0x30);
    buf.push(0x6d);
    assert(buf@ =~= keyframe_render(cells@, cols, rows));
}

/// Renders delta cells into `buf`: each at its own 1-indexed position, with both colors.
pub fn render_delta(deltas: &[DeltaCell], buf: &mut Vec<u8>)
    ensures
        final(buf)@ == deltas_render(deltas@),
{
    buf.clear();
    let mut i: usize = 0;
    while i < deltas.len()
        invariant
            i <= deltas@.len(),
            buf@ == deltas_render(deltas@.take(i as int)),
        decreases deltas@.len() - i,
    {
        let d = deltas[i];
        let ghost start = buf@;
        write_cursor_pos(buf, d.y as u32 + 1, d.x as u32 + 1);
        write_bg(buf, d.cell.bg_r, d.cell.bg_g, d.cell.bg_b);
        write_fg(buf, d.cell.fg_r, d.cell.fg_g, d.cell.fg_b);
        write_glyph(buf);
        proof {
            let t = deltas@.take(i + 1);
            assert(t.drop_last() =~= deltas@.take(i as int));
            assert(buf@ =~= start + delta_render(d));
        }
        i = i + 1;
    }
    assert(deltas@.take(i as int) =~= deltas@);
}

/// `k` glyphs in a row.
pub open spec fn glyphs(k: nat) -> Seq<u8>
    decreases k,
{
    if k == 0 {
        Seq::empty()
    } else {
        glyphs((k - 1) as nat) + glyph()
    }
}

/// `r` rows of `cols` glyphs, separated by CR LF.
pub open spec fn flat_rows(cols: nat, r: nat) -> Seq<u8>
    decreases r,
{
    if r == 0 {
        Seq::empty()
    } else {
        flat_rows(cols, (r - 1) as nat) + (if r > 1 {
            crlf()
        } else {
            Seq::empty()
        }) + glyphs(cols)
    }
}

/// Whether the first `n` cells all equal the first.
pub open spec fn is_flat(cells: Seq<Cell>, n: int) -> bool {
    forall|i: int| 0 <= i < n ==> #[trigger] cells[i] == cells[0]
}

proof fn lemma_glyphs_no_escape(k: nat)
    ensures
        forall|j: int| 0 <= j < glyphs(k).len() ==> #[trigger] glyphs(k)[j] != 0x1b,
    decreases k,
{
    if k > 0 {
        let p = glyphs((k - 1) as nat);
        lemma_glyphs_no_escape((k - 1) as nat);
        assert forall|j: int| 0 <= j < glyphs(k).len() implies #[trigger] glyphs(k)[j] != 0x1b by {
            if j < p.len() {
                assert(glyphs(k)[j] == p[j]);
            } else {
                assert(glyphs(k)[j] == glyph()[j - p.len()]);
            }
        }
    }
}

proof fn lemma_flat_rows_no_escape(cols: nat, r: nat)
    ensures
        forall|j: int| 0 <= j < flat_rows(cols, r).len() ==> #[trigger] flat_rows(cols, r)[j] != 0x1b,
    decreases r,
{
    lemma_glyphs_no_escape(cols);
    if r > 0 {
        let p = flat_rows(cols, (r - 1) as nat);
        let sep = if r > 1 {
            crlf()
        } else {
            Seq::empty()
        };
        lemma_flat_rows_no_escape(cols, (r - 1) as nat);
        let f = flat_rows(cols, r);
        assert(f == p + sep + glyphs(cols));
        assert forall|j: int| 0 <= j < f.len() implies #[trigger] f[j] != 0x1b by {
            if j < p.len() {
                assert(f[j] == p[j]);
            } else if j < p.len() + sep.len() {
                assert(f[j] == sep[j - p.len()]);
            } else {
                assert(f[j] == glyphs(cols)[j - p.len() - sep.len()]);
            }
        }
    }
}

proof fn lemma_flat_row(cells: Seq<Cell>, cols: nat, rows: nat, row: nat, k: nat)
    requires
        row < rows,
        k <= cols,
        cells.len() >= cols * rows,
        is_flat(cells, (cols * rows) as int),
    ensures
        row_render(cells, cols, row, k) == if row == 0 && k > 0 {
            bg_sgr(cells[0]) + fg_sgr(cells[0]) + glyphs(k)
        } else {
            glyphs(k)
        },
    decreases k,
{
    if k > 0 {
        lemma_flat_row(cells, cols, rows, row, (k - 1) as nat);
        let i = row * cols + k - 1;
        assert(row * cols + cols <= cols * rows) by (nonlinear_arith)
            requires
                row < rows,
        ;
        assert(cells[i] == cells[0]);
        if i > 0 {
            assert(cells[i - 1] == cells[0]);
        }
        if row == 0 {
            assert(row_render(cells, cols, row, k) =~= bg_sgr(cells[0]) + fg_sgr(cells[0])
                + glyphs(k));
        } else {
            assert(row * cols >= cols) by (nonlinear_arith)
                requires
                    row >= 1,
            ;
            assert(row_render(cells, cols, row, k) =~= glyphs(k));
        }
    }
}

proof fn lemma_flat_rows(cells: Seq<Cell>, cols: nat, rows: nat, r: nat)
    requires
        1 <= r <= rows,
        cols >= 1,
        cells.len() >= cols * rows,
        is_flat(cells, (cols * rows) as int),
    ensures
        rows_render(cells, cols, r) == bg_sgr(cells[0]) + fg_sgr(cells[0]) + flat_rows(cols, r),
    decreases r,
{
    lemma_flat_row(cells, cols, rows, (r - 1) as nat, cols);
    let head = bg_sgr(cells[0]) + fg_sgr(cells[0]);
    if r == 1 {
        assert(rows_render(cells, cols, 0) == Seq::<u8>::empty());
        assert(flat_rows(cols, 0) == Seq::<u8>::empty());
        assert(row_render(cells, cols, 0, cols) == head + glyphs(cols));
        assert(rows_render(cells, cols, r) =~= head + flat_rows(cols, r));
    } else {
        lemma_flat_rows(cells, cols, rows, (r - 1) as nat);
        assert(row_render(cells, cols, (r - 1) as nat, cols) == glyphs(cols));
        assert(rows_render(cells, cols, r) == rows_render(cells, cols, (r - 1) as nat) + crlf()
            + glyphs(cols));
        assert(flat_rows(cols, r) == flat_rows(cols, (r - 1) as nat) + crlf() + glyphs(cols));
        assert(rows_render(cells, cols, r) =~= head + flat_rows(cols, r));
    }
}

/// A keyframe whose cells are all equal renders as home, one background escape, one
/// foreground escape, glyphs and line breaks only, and reset, whatever its size.
pub proof fn lemma_flat_keyframe(cells: Seq<Cell>, cols: u16, rows: u16)
    requires
        cols >= 1,
        rows >= 1,
        cells.len() >= cols * rows,
        is_flat(cells, (cols * rows) as int),
    ensures
        keyframe_render(cells, cols, rows) == home() + bg_sgr(cells[0]) + fg_sgr(cells[0])
            + flat_rows(cols as nat, rows as nat) + reset(),
        forall|j: int|
            0 <= j < flat_rows(cols as nat, rows as nat).len() ==> #[trigger] flat_rows(
                cols as nat,
                rows as nat,
            )[j] != 0x1b,
{
    lemma_flat_rows(cells, cols as nat, rows as nat, rows as nat);
    lemma_flat_rows_no_escape(cols as nat, rows as nat);
    assert(keyframe_render(cells, cols, rows) =~= home() + bg_sgr(cells[0]) + fg_sgr(cells[0])
        + flat_rows(cols as nat, rows as nat) + reset());
}

} // verus!
