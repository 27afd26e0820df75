//! RGB24 pixels to half-block cells: one cell carries two vertically stacked pixels.
use vstd::prelude::*;
use crate::format::Cell;
use vstd::arithmetic::div_mod::lemma_fundamental_div_mod_converse;

verus! {

/// The byte offset of pixel `(x, y)` in a row-major RGB24 buffer `width` pixels wide.
pub open spec fn pixel_offset(width: int, x: int, y: int) -> int {
    (y * width + x) * 3
}

/// The cell at column `col`, row `row`: background from pixel `(col, 2 * row)`,
/// foreground from pixel `(col, 2 * row + 1)`.
pub open spec fn halfblock_cell(rgb: Seq<u8>, width: int, col: int, row: int) -> Cell {
    let top = pixel_offset(width, col, 2 * row);
    let bot = pixel_offset(width, col, 2 * row + 1);
    Cell {
        bg_r: rgb[top],
        bg_g: rgb[top + 1],
        bg_b: rgb[top + 2],
        fg_r: rgb[bot],
        fg_g: rgb[bot + 1],
        fg_b: rgb[bot + 2],
    }
}

/// The whole cell grid: `width` cells per row, `height / 2` rows, row-major.
pub open spec fn halfblock_grid(rgb: Seq<u8>, width: u32, height: u32) -> Seq<Cell> {
    Seq::new(
        (width * (height / 2)) as nat,
        |k: int| halfblock_cell(rgb, width as int, k % (width as int), k / (width as int)),
    )
}

proof fn lemma_offsets(row: int, col: int, w: int, h: int)
    requires
        0 <= row < h / 2,
        0 <= col < w,
    ensures
        0 <= row * 2 * w <= (row * 2 + 1) * w,
        (row * 2 + 1) * w + col < w * h,
        pixel_offset(w, col, 2 * row) == ((row * 2) * w + col) * 3,
        pixel_offset(w, col, 2 * row + 1) == ((row * 2 + 1) * w + col) * 3,
        0 <= pixel_offset(w, col, 2 * row),
        pixel_offset(w, col, 2 * row + 1) + 2 < w * h * 3,
        pixel_offset(w, col, 2 * row) + 2 < w * h * 3,
{
    assert(row * 2 + 2 <= h);
    assert(0 <= row * 2 * w <= (row * 2 + 1) * w) by (nonlinear_arith)
        requires
            0 <= row,
            0 <= w,
    ;
    assert((row * 2 + 1) * w + col < w * h) by (nonlinear_arith)
        requires
            row * 2 + 2 <= h,
            0 <= col < w,
            0 <= row,
    ;
    assert(pixel_offset(w, col, 2 * row) == ((row * 2) * w + col) * 3) by (nonlinear_arith);
    assert(pixel_offset(w, col, 2 * row + 1) == ((row * 2 + 1) * w + col) * 3) by (
    nonlinear_arith);
}

proof fn lemma_grid_index(row: int, col: int, w: int, rows: int)
    requires
        0 <= row < rows,
        0 <= col < w,
    ensures
        (row * w + col) / w == row,
        (row * w + col) % w == col,
        row * w + col < w * rows,
        row * w + col + 1 <= w * rows,
{
    lemma_fundamental_div_mod_converse(row * w + col, w, row, col);
    assert(row * w + col < w * rows) by (nonlinear_arith)
        requires
            0 <= row < rows,
            0 <= col < w,
    ;
}

/// Converts RGB pixel data into a cell grid using the half-block trick: `width` cells
/// per row, `height / 2` rows, row-major. Each cell holds two vertical pixels:
/// background = top pixel, foreground = bottom pixel.
pub fn pixels_to_cells(rgb: &[u8], width: u32, height: u32) -> (r: Vec<Cell>)
    requires
        rgb@.len() >= width * height * 3,
    ensures
        r@.len() == width * (height / 2),
        r@ == halfblock_grid(rgb@, width, height),
        forall|row: int, col: int|
            0 <= row < height / 2 && 0 <= col < width ==> #[trigger] r@[row * width + col]
                == halfblock_cell(rgb@, width as int, col, row),
{
    let cols = width as usize;
    let rows = (height / 2) as usize;
    let n = rgb.len();
    let mut cells: Vec<Cell> = Vec::new();
    let mut row: usize = 0;
    while row < rows
        invariant
            cols == width,
            rows == height / 2,
            rgb@.len() >= width * height * 3,
            n == rgb@.len(),
            row <= rows,
            cells@.len() == row * cols,
            forall|k: int|
                0 <= k < cells@.len() ==> #[trigger] cells@[k] == halfblock_cell(
                    rgb@,
                    cols as int,
                    k % (cols as int),
                    k / (cols as int),
                ),
        decreases rows - row,
    {
        let mut col: usize = 0;
        while col < cols
            invariant
                cols == width,
                rows == height / 2,
                rgb@.len() >= width * height * 3,
                n == rgb@.len(),
                row < rows,
                col <= cols,
                cells@.len() == row * cols + col,
                forall|k: int|
                    0 <= k < cells@.len() ==> #[trigger] cells@[k] == halfblock_cell(
                        rgb@,
                        cols as int,
                        k % (cols as int),
                        k / (cols as int),
                    ),
            decreases cols - col,
        {
            proof {
                lemma_offsets(row as int, col as int, cols as int, height as int);
                lemma_grid_index(row as int, col as int, cols as int, rows as int);
            }
            let top_off = (row * 2 * cols + col) * 3;
            let bot_off = ((row * 2 + 1) * cols + col) * 3;
            cells.push(
                Cell {
                    bg_r: rgb[top_off],
                    bg_g: rgb[top_off + 1],
                    bg_b: rgb[top_off + 2],
                    fg_r: rgb[bot_off],
                    fg_g: rgb[bot_off + 1],
                    fg_b: rgb[bot_off + 2],
                },
            );
            col = col + 1;
        }
        assert(row * cols + cols == (row + 1) * cols) by (nonlinear_arith);
        row = row + 1;
    }
    assert forall|row: int, col: int|
        0 <= row < height / 2 && 0 <= col < width implies #[trigger] cells@[row * width + col]
        == halfblock_cell(rgb@, width as int, col, row) by {
        lemma_grid_index(row, col, cols as int, rows as int);
    }
    assert(rows * cols == width * (height / 2)) by (nonlinear_arith)
        requires
            cols == width,
            rows == height / 2,
    ;
    assert(cells@ =~= halfblock_grid(rgb@, width, height));
    cells
}

} // verus!
