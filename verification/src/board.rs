use std::collections::VecDeque;

use vstd::arithmetic::div_mod::{lemma_fundamental_div_mod, lemma_fundamental_div_mod_converse};
use vstd::prelude::*;
use vstd::set_lib::lemma_len_subset;

use crate::snake::{all_in_bounds, cells_contain, in_bounds};
use crate::types::SpacePoint;

verus! {

/// The `i`-th cell of a board `w` cells wide, counting row by row.
pub open spec fn grid_cell(w: u16, i: int) -> SpacePoint {
    SpacePoint { x: (i % (w as int)) as u16, y: (i / (w as int)) as u16 }
}

/// All cells of a `w` by `h` board, row by row.
pub open spec fn grid(w: u16, h: u16) -> Seq<SpacePoint> {
    Seq::new((w * h) as nat, |i: int| grid_cell(w, i))
}

/// A cell is free when none of `occupied` is on it.
pub open spec fn free_pred(occupied: Seq<SpacePoint>) -> spec_fn(SpacePoint) -> bool {
    |p: SpacePoint| !occupied.contains(p)
}

/// The cells of a `w` by `h` board that no cell of `occupied` covers, row by row.
pub open spec fn free_cells(w: u16, h: u16, occupied: Seq<SpacePoint>) -> Seq<SpacePoint> {
    grid(w, h).filter(free_pred(occupied))
}

/// Some cell of the `w` by `h` board is not covered by `occupied`.
pub open spec fn has_free_cell(w: u16, h: u16, occupied: Seq<SpacePoint>) -> bool {
    exists|p: SpacePoint| in_bounds(p, w, h) && !occupied.contains(p)
}

/// The `i`-th cell of the board is the cell in row `i / w`, column `i % w`.
pub proof fn lemma_grid_cell(w: u16, h: u16, i: int)
    requires
        w > 0,
        0 <= i < w * h,
    ensures
        in_bounds(grid_cell(w, i), w, h),
        grid_cell(w, i).x == i % (w as int),
        grid_cell(w, i).y == i / (w as int),
        i == grid_cell(w, i).y * w + grid_cell(w, i).x,
{
    lemma_fundamental_div_mod(i, w as int);
    let q = i / (w as int);
    let r = i % (w as int);
    assert(0 <= r < w);
    assert(q < h) by (nonlinear_arith)
        requires
            i == w * q + r,
            0 <= r,
            i < w * h,
            w > 0,
    ;
    assert(q >= 0) by (nonlinear_arith)
        requires
            i == w * q + r,
            r < w,
            i >= 0,
            w > 0,
    ;
    assert(i == q * w + r) by (nonlinear_arith)
        requires
            i == w * q + r,
    ;
}

/// The cell in row `p.y`, column `p.x` is the board's cell number `p.y * w + p.x`.
pub proof fn lemma_grid_index(w: u16, h: u16, p: SpacePoint)
    requires
        in_bounds(p, w, h),
    ensures
        0 <= p.y * w + p.x < w * h,
        grid(w, h)[p.y * w + p.x] == p,
{
    let i = p.y * w + p.x;
    assert(0 <= i < w * h) by (nonlinear_arith)
        requires
            i == p.y * w + p.x,
            p.x < w,
            p.y < h,
            p.y >= 0,
            p.x >= 0,
    ;
    lemma_fundamental_div_mod_converse(i, w as int, p.y as int, p.x as int);
}

/// No cell occurs twice in the board.
pub proof fn lemma_grid_no_duplicates(w: u16, h: u16)
    ensures
        grid(w, h).no_duplicates(),
{
    assert forall|i: int, j: int|
        0 <= i < grid(w, h).len() && 0 <= j < grid(w, h).len() && i != j implies grid(w, h)[i]
        != grid(w, h)[j] by {
        lemma_grid_cell(w, h, i);
        lemma_grid_cell(w, h, j);
    }
}

/// Pigeonhole: fewer cells than the board has leave one of its cells free.
pub proof fn lemma_free_cell_exists(w: u16, h: u16, occupied: Seq<SpacePoint>)
    requires
        occupied.len() < w * h,
    ensures
        has_free_cell(w, h, occupied),
{
    let g = grid(w, h);
    if !has_free_cell(w, h, occupied) {
        lemma_grid_no_duplicates(w, h);
        g.unique_seq_to_set();
        occupied.lemma_cardinality_of_set();
        assert(w > 0) by (nonlinear_arith)
            requires
                w * h > 0,
                w >= 0,
                h >= 0,
        ;
        assert(g.to_set().subset_of(occupied.to_set())) by {
            assert forall|p: SpacePoint| g.to_set().contains(p) implies occupied.to_set().contains(
                p,
            ) by {
                let i = choose|i: int| 0 <= i < g.len() && g[i] == p;
                lemma_grid_cell(w, h, i);
            }
        }
        lemma_len_subset(g.to_set(), occupied.to_set());
    }
}

/// Cells that are all on the board and pairwise different are at most as
/// many as the board has.
pub proof fn lemma_distinct_cells_fit(w: u16, h: u16, cells: Seq<SpacePoint>)
    requires
        cells.no_duplicates(),
        all_in_bounds(cells, w, h),
    ensures
        cells.len() <= w * h,
{
    let g = grid(w, h);
    if cells.len() > 0 {
        assert(in_bounds(cells[0], w, h));
        lemma_grid_index(w, h, cells[0]);
    }
    lemma_grid_no_duplicates(w, h);
    g.unique_seq_to_set();
    cells.unique_seq_to_set();
    assert(cells.to_set().subset_of(g.to_set())) by {
        assert forall|p: SpacePoint| cells.to_set().contains(p) implies g.to_set().contains(p) by {
            let i = choose|i: int| 0 <= i < cells.len() && cells[i] == p;
            assert(in_bounds(cells[i], w, h));
            lemma_grid_index(w, h, p);
            assert(g[p.y * w + p.x] == p);
        }
    }
    vstd::seq_lib::seq_to_set_is_finite(g);
    lemma_len_subset(cells.to_set(), g.to_set());
}

/// Pairwise different cells on the board that are as many as the board's
/// cells cover every cell of the board.
pub proof fn lemma_full_cells_cover(w: u16, h: u16, cells: Seq<SpacePoint>, p: SpacePoint)
    requires
        cells.no_duplicates(),
        all_in_bounds(cells, w, h),
        cells.len() >= w * h,
        in_bounds(p, w, h),
    ensures
        cells.contains(p),
{
    if !cells.contains(p) {
        let more = cells.push(p);
        assert(more.no_duplicates()) by {
            assert forall|i: int, j: int|
                0 <= i < more.len() && 0 <= j < more.len() && i != j implies more[i] != more[j] by {
                if i < cells.len() && j < cells.len() {
                    assert(more[i] == cells[i] && more[j] == cells[j]);
                } else if i < cells.len() {
                    assert(more[i] == cells[i]);
                } else {
                    assert(more[j] == cells[j]);
                }
            }
        }
        assert(all_in_bounds(more, w, h)) by {
            assert forall|i: int| 0 <= i < more.len() implies in_bounds(#[trigger] more[i], w, h) by {
                if i < cells.len() {
                    assert(more[i] == cells[i]);
                }
            }
        }
        lemma_distinct_cells_fit(w, h, more);
    }
}

/// The free cells are exactly the board's cells that `occupied` does not cover.
pub proof fn lemma_free_cells_members(w: u16, h: u16, occupied: Seq<SpacePoint>)
    ensures
        forall|p: SpacePoint| #[trigger]
            free_cells(w, h, occupied).contains(p) <==> (in_bounds(p, w, h) && !occupied.contains(
                p,
            )),
{
    let g = grid(w, h);
    let f = free_pred(occupied);
    assert forall|p: SpacePoint| #[trigger]
        free_cells(w, h, occupied).contains(p) <==> (in_bounds(p, w, h) && !occupied.contains(
            p,
        )) by {
        if free_cells(w, h, occupied).contains(p) {
            let k = choose|k: int| 0 <= k < g.filter(f).len() && g.filter(f)[k] == p;
            g.lemma_filter_pred(f, k);
            g.lemma_filter_contains_rev(f, p);
            let i = choose|i: int| 0 <= i < g.len() && g[i] == p;
            assert(w > 0) by (nonlinear_arith)
                requires
                    0 <= i < w * h,
                    w >= 0,
                    h >= 0,
            ;
            lemma_grid_cell(w, h, i);
        }
        if in_bounds(p, w, h) && !occupied.contains(p) {
            lemma_grid_index(w, h, p);
            g.lemma_filter_contains(f, p.y * w + p.x);
        }
    }
}

/// A board with a free cell has a non-empty list of free cells.
pub proof fn lemma_free_cells_nonempty(w: u16, h: u16, occupied: Seq<SpacePoint>)
    requires
        has_free_cell(w, h, occupied),
    ensures
        free_cells(w, h, occupied).len() > 0,
{
    let p = choose|p: SpacePoint| in_bounds(p, w, h) && !occupied.contains(p);
    lemma_free_cells_members(w, h, occupied);
    assert(free_cells(w, h, occupied).contains(p));
}

/// Whether `p` is one of the cells of `cells`.
pub fn list_contains(cells: &Vec<SpacePoint>, p: SpacePoint) -> (b: bool)
    ensures
        b == cells@.contains(p),
{
    let n = cells.len();
    let mut i: usize = 0;
    while i < n
        invariant
            n == cells@.len(),
            i <= n,
            forall|j: int| 0 <= j < i ==> cells@[j] != p,
        decreases n - i,
    {
        if cells[i] == p {
            proof {
                assert(cells@[i as int] == p);
            }
            return true;
        }
        i = i + 1;
    }
    false
}

/// A cell is in a concatenation exactly when it is in one of the parts.
pub proof fn lemma_contains_concat(a: Seq<SpacePoint>, b: Seq<SpacePoint>, p: SpacePoint)
    ensures
        (a + b).contains(p) == (a.contains(p) || b.contains(p)),
{
    if (a + b).contains(p) {
        let i = choose|i: int| 0 <= i < (a + b).len() && (a + b)[i] == p;
        if i < a.len() {
            assert(a[i] == p);
        } else {
            assert(b[i - a.len()] == p);
        }
    }
    if a.contains(p) {
        let i = choose|i: int| 0 <= i < a.len() && a[i] == p;
        assert((a + b)[i] == p);
    }
    if b.contains(p) {
        let i = choose|i: int| 0 <= i < b.len() && b[i] == p;
        assert((a + b)[i + a.len()] == p);
    }
}

/// The cells of a `width` by `height` board that none of `a`, `b` and `c`
/// covers, row by row.
pub fn free_cell_list(
    width: u16,
    height: u16,
    a: &VecDeque<SpacePoint>,
    b: &VecDeque<SpacePoint>,
    c: &Vec<SpacePoint>,
) -> (cells: Vec<SpacePoint>)
    ensures
        cells@ == free_cells(width, height, a@ + b@ + c@),
{
    let ghost occ = a@ + b@ + c@;
    let ghost g = grid(width, height);
    let ghost f = free_pred(occ);
    let mut out: Vec<SpacePoint> = Vec::new();
    let mut y: u16 = 0;
    while y < height
        invariant
            y <= height,
            occ == a@ + b@ + c@,
            g == grid(width, height),
            f == free_pred(occ),
            y * width <= width * height,
            out@ == g.take(y * width).filter(f),
        decreases height - y,
    {
        let mut x: u16 = 0;
        while x < width
            invariant
                x <= width,
                y < height,
                occ == a@ + b@ + c@,
                g == grid(width, height),
                f == free_pred(occ),
                y * width + x <= width * height,
                out@ == g.take(y * width + x).filter(f),
            decreases width - x,
        {
            let p = SpacePoint { x, y };
            let ghost k = y * width + x;
            proof {
                lemma_grid_index(width, height, p);
                assert(g.take(k + 1) =~= g.take(k).push(g[k]));
                g.take(k).lemma_filter_push(g[k], f);
                lemma_contains_concat(a@ + b@, c@, p);
                lemma_contains_concat(a@, b@, p);
            }
            if !cells_contain(a, p) && !cells_contain(b, p) && !list_contains(c, p) {
                out.push(p);
            }
            proof {
                assert(y * width + x + 1 <= width * height) by (nonlinear_arith)
                    requires
                        x < width,
                        y < height,
                        y >= 0,
                ;
            }
            x = x + 1;
        }
        proof {
            assert((y + 1) * width == y * width + width) by (nonlinear_arith);
        }
        y = y + 1;
    }
    proof {
        assert(g.take(height * width) =~= g) by {
            assert(height * width == width * height) by (nonlinear_arith);
        }
    }
    out
}

} // verus!
