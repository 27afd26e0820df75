//! Cell-grid diff with keyframe promotion, and the application of deltas to a grid.
use vstd::prelude::*;
use crate::format::{Cell, DeltaCell};
use vstd::arithmetic::div_mod::lemma_fundamental_div_mod;
use vstd::arithmetic::mul::lemma_mul_is_commutative;

verus! {

/// Result of comparing two frames.
pub enum FrameDiff {
    /// Use this as a keyframe (too many changes, or no previous frame).
    Keyframe(Vec<Cell>),
    /// Delta: only the changed cells.
    Delta(Vec<DeltaCell>),
}

/// The delta cell for grid position `i`, carrying `c`.
pub open spec fn delta_for(i: int, cols: u16, c: Cell) -> DeltaCell {
    DeltaCell { x: (i % (cols as int)) as u16, y: (i / (cols as int)) as u16, cell: c }
}

/// The delta cells, in index order, for the positions below `n` where `curr` differs
/// from `prev`.
pub open spec fn changed_cells(prev: Seq<Cell>, curr: Seq<Cell>, cols: u16, n: nat) -> Seq<
    DeltaCell,
>
    decreases n,
{
    if n == 0 {
        Seq::empty()
    } else {
        let i = n - 1;
        let rest = changed_cells(prev, curr, cols, i as nat);
        if curr[i] != prev[i] {
            rest.push(delta_for(i, cols, curr[i]))
        } else {
            rest
        }
    }
}

/// The most delta cells a frame of `total` cells may carry before it is promoted to a
/// keyframe: 60% of the grid, rounded down.
pub open spec fn promotion_limit(total: nat) -> int {
    (total * 60 / 100) as int
}

/// `cells` with the delta cell written at `y * cols + x`, when that lies in the grid.
pub open spec fn apply_cell(cells: Seq<Cell>, d: DeltaCell, cols: u16) -> Seq<Cell> {
    let idx = d.y * cols + d.x;
    if idx < cells.len() {
        cells.update(idx, d.cell)
    } else {
        cells
    }
}

/// `cells` with the delta cells written in order; those outside the grid are ignored.
pub open spec fn apply_deltas(cells: Seq<Cell>, ds: Seq<DeltaCell>, cols: u16) -> Seq<Cell>
    decreases ds.len(),
{
    if ds.len() == 0 {
        cells
    } else {
        apply_cell(apply_deltas(cells, ds.drop_last(), cols), ds.last(), cols)
    }
}

/// Column and row of grid position `i` fit their 16-bit fields and give `i` back.
pub proof fn lemma_position(i: int, cols: u16)
    requires
        0 <= i < cols * 65536,
    ensures
        0 <= i % (cols as int) < cols,
        0 <= i / (cols as int) < 65536,
        (i / (cols as int)) * cols + i % (cols as int) == i,
{
    lemma_fundamental_div_mod(i, cols as int);
    let q = i / (cols as int);
    let r = i % (cols as int);
    lemma_mul_is_commutative(q, cols as int);
    assert(q < 65536) by (nonlinear_arith)
        requires
            i == cols * q + r,
            0 <= r,
            i < cols * 65536,
            cols > 0,
    ;
    assert(q >= 0) by (nonlinear_arith)
        requires
            i == cols * q + r,
            0 <= i,
            r < cols,
            cols > 0,
    ;
}

/// A grid compared with itself has no changed cells.
pub proof fn lemma_unchanged_grid(g: Seq<Cell>, cols: u16, n: nat)
    requires
        n <= g.len(),
    ensures
        changed_cells(g, g, cols, n) == Seq::<DeltaCell>::empty(),
    decreases n,
{
    if n > 0 {
        lemma_unchanged_grid(g, cols, (n - 1) as nat);
    }
}

/// Copies a slice of cells into a vector.
fn copy_cells(s: &[Cell]) -> (r: Vec<Cell>)
    ensures
        r@ == s@,
{
    let mut r: Vec<Cell> = Vec::new();
    let mut i: usize = 0;
    while i < s.len()
        invariant
            i <= s@.len(),
            r@ == s@.take(i as int),
        decreases s@.len() - i,
    {
        r.push(s[i]);
        i = i + 1;
        assert(r@ =~= s@.take(i as int));
    }
    assert(s@.take(i as int) =~= s@);
    r
}

/// Compares the current frame's cells against the previous ones, producing either a
/// delta or a keyframe. `cols` gives the x, y position of each index of the flat grid.
pub fn compute_delta(prev: &[Cell], current: &[Cell], cols: u16, force_keyframe: bool) -> (r:
    FrameDiff)
    requires
        force_keyframe || prev@.len() == 0 || prev@.len() == current@.len(),
        force_keyframe || prev@.len() == 0 || current@.len() <= cols * 65536,
    ensures
        !force_keyframe && prev@.len() != 0 && prev@ == current@ ==> (r matches FrameDiff::Delta(
            d,
        ) && d@.len() == 0),
        match r {
            FrameDiff::Keyframe(k) => {
                &&& k@ == current@
                &&& (force_keyframe || prev@.len() == 0 || changed_cells(
                    prev@,
                    current@,
                    cols,
                    current@.len(),
                ).len() > promotion_limit(current@.len()))
            },
            FrameDiff::Delta(d) => {
                &&& !force_keyframe
                &&& prev@.len() != 0
                &&& d@ == changed_cells(prev@, current@, cols, current@.len())
                &&& d@.len() <= promotion_limit(current@.len())
            },
        },
{
    if force_keyframe || prev.len() == 0 {
        return FrameDiff::Keyframe(copy_cells(current));
    }
    let total = current.len();
    proof {
        if prev@ == current@ {
            lemma_unchanged_grid(prev@, cols, total as nat);
        }
    }
    let mut deltas: Vec<DeltaCell> = Vec::new();
    let mut i: usize = 0;
    while i < total
        invariant
            total == current@.len(),
            prev@.len() == current@.len(),
            total <= cols * 65536,
            i <= total,
            deltas@ == changed_cells(prev@, current@, cols, i as nat),
        decreases total - i,
    {
        if current[i] != prev[i] {
            proof {
                lemma_position(i as int, cols);
            }
            let x = (i % cols as usize) as u16;
            let y = (i / cols as usize) as u16;
            deltas.push(DeltaCell { x, y, cell: current[i] });
        }
        i = i + 1;
    }
    let limit = (total as u64) * 60 / 100;
    if deltas.len() as u64 > limit {
        FrameDiff::Keyframe(copy_cells(current))
    } else {
        FrameDiff::Delta(deltas)
    }
}

/// The first `n` cells from `curr`, the rest from `prev`.
pub open spec fn mixed(prev: Seq<Cell>, curr: Seq<Cell>, n: int) -> Seq<Cell> {
    Seq::new(prev.len(), |j: int| if j < n { curr[j] } else { prev[j] })
}

proof fn lemma_apply_prefix(prev: Seq<Cell>, curr: Seq<Cell>, cols: u16, n: nat)
    requires
        prev.len() == curr.len(),
        curr.len() <= cols * 65536,
        n <= curr.len(),
    ensures
        apply_deltas(prev, changed_cells(prev, curr, cols, n), cols) == mixed(prev, curr, n as int),
    decreases n,
{
    if n == 0 {
        assert(mixed(prev, curr, 0) =~= prev);
    } else {
        let i = n - 1;
        lemma_apply_prefix(prev, curr, cols, i as nat);
        let rest = changed_cells(prev, curr, cols, i as nat);
        if curr[i] != prev[i] {
            lemma_position(i, cols);
            let ds = rest.push(delta_for(i, cols, curr[i]));
            assert(ds.drop_last() =~= rest);
            assert(apply_deltas(prev, ds, cols) =~= mixed(prev, curr, n as int));
        } else {
            assert(mixed(prev, curr, i) =~= mixed(prev, curr, n as int));
        }
    }
}

/// Applying the delta cells of two equally sized grids to the first gives the second.
/// The bound on the length holds for every grid of `cols` by `rows` cells, `rows` being
/// 16-bit; without it a row number would not fit a delta cell's `y`.
pub proof fn lemma_delta_equivalence(prev: Seq<Cell>, curr: Seq<Cell>, cols: u16)
    requires
        prev.len() == curr.len(),
        curr.len() <= cols * 65536,
    ensures
        apply_deltas(prev, changed_cells(prev, curr, cols, curr.len()), cols) == curr,
{
    lemma_apply_prefix(prev, curr, cols, curr.len());
    assert(mixed(prev, curr, curr.len() as int) =~= curr);
}

/// Every delta cell of two `cols` by `rows` grids lies within the grid.
pub proof fn lemma_delta_bounds(prev: Seq<Cell>, curr: Seq<Cell>, cols: u16, rows: u16, n: nat)
    requires
        curr.len() == cols * rows,
        n <= curr.len(),
    ensures
        forall|k: int|
            0 <= k < changed_cells(prev, curr, cols, n).len() ==> #[trigger] changed_cells(
                prev,
                curr,
                cols,
                n,
            )[k].x < cols && changed_cells(prev, curr, cols, n)[k].y < rows,
    decreases n,
{
    if n > 0 {
        let i = n - 1;
        lemma_delta_bounds(prev, curr, cols, rows, i as nat);
        if curr[i] == prev[i] {
            assert(changed_cells(prev, curr, cols, n) == changed_cells(prev, curr, cols, i as nat));
        } else {
            assert(cols * rows <= cols * 65536) by (nonlinear_arith)
                requires
                    rows <= 65535,
                    cols >= 0,
            ;
            lemma_position(i, cols);
            let q = i / (cols as int);
            let r = i % (cols as int);
            assert(q < rows) by (nonlinear_arith)
                requires
                    q * cols + r == i,
                    0 <= r,
                    i < cols * rows,
                    cols > 0,
            ;
            let rest = changed_cells(prev, curr, cols, i as nat);
            let all = changed_cells(prev, curr, cols, n);
            assert forall|k: int| 0 <= k < all.len() implies #[trigger] all[k].x < cols && all[k].y
                < rows by {
                if k < rest.len() {
                    assert(all[k] == rest[k]);
                }
            }
        }
    }
}

} // verus!
