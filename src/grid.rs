//! Integer topology of the particle lattice: flat indices, the distance
//! constraints that join particles, the triangles of the mesh and the
//! anchored particles.
use vstd::prelude::*;
use vstd::arithmetic::div_mod::lemma_fundamental_div_mod_converse;

verus! {

/// Flat index of the particle at column `x`, row `y` of a lattice `cols` wide.
pub open spec fn index_of(cols: int, x: int, y: int) -> int {
    y * cols + x
}

/// Links created at cell `(x, y)` by the sweep that joins particles `gap`
/// apart: along the row, down the column, then the two diagonals of the
/// `gap`-sized square whose top left corner is the cell.
pub open spec fn cell_links(cols: int, rows: int, gap: int, x: int, y: int) -> Seq<(int, int)> {
    let along = if x + gap < cols {
        seq![(index_of(cols, x, y), index_of(cols, x + gap, y))]
    } else {
        Seq::empty()
    };
    let down = if y + gap < rows {
        seq![(index_of(cols, x, y), index_of(cols, x, y + gap))]
    } else {
        Seq::empty()
    };
    let across = if x + gap < cols && y + gap < rows {
        seq![
            (index_of(cols, x, y), index_of(cols, x + gap, y + gap)),
            (index_of(cols, x + gap, y), index_of(cols, x, y + gap)),
        ]
    } else {
        Seq::empty()
    };
    along + down + across
}

/// Links of the first `n` cells of one sweep, the cells taken column by
/// column (cell `n` is at column `n / rows`, row `n % rows`).
pub open spec fn sweep_links(cols: int, rows: int, gap: int, n: nat) -> Seq<(int, int)>
    decreases n,
{
    if n == 0 {
        Seq::empty()
    } else {
        sweep_links(cols, rows, gap, (n - 1) as nat) + cell_links(
            cols,
            rows,
            gap,
            (n - 1) / rows,
            (n - 1) % rows,
        )
    }
}

/// Every constraint of the lattice in creation order: first the sweep of
/// immediate neighbours (structural and shear), then the sweep of
/// neighbours two apart (bending).
pub open spec fn link_pairs(cols: int, rows: int) -> Seq<(int, int)> {
    sweep_links(cols, rows, 1, (cols * rows) as nat) + sweep_links(cols, rows, 2, (cols * rows) as nat)
}

/// A sequence of index pairs read as integers.
pub open spec fn pairs_view(v: Seq<(usize, usize)>) -> Seq<(int, int)> {
    v.map_values(|p: (usize, usize)| (p.0 as int, p.1 as int))
}

/// Every pair names two particles of a lattice of `n` particles.
pub open spec fn pairs_in_bounds(v: Seq<(usize, usize)>, n: int) -> bool {
    forall|k: int| 0 <= k < v.len() ==> (#[trigger] v[k]).0 < n && v[k].1 < n
}

/// The three corners of one triangle of the quad whose top left particle is
/// at `(x, y)`: the first is `(x+1, y), (x, y), (x, y+1)`, the second
/// `(x+1, y+1), (x+1, y), (x, y+1)`.
pub open spec fn triangle_of(cols: int, x: int, y: int, second: bool) -> (int, int, int) {
    if !second {
        (index_of(cols, x + 1, y), index_of(cols, x, y), index_of(cols, x, y + 1))
    } else {
        (index_of(cols, x + 1, y + 1), index_of(cols, x + 1, y), index_of(cols, x, y + 1))
    }
}

/// The six corners that the quad at `(x, y)` contributes to the vertex buffers.
pub open spec fn quad_corners(cols: int, x: int, y: int) -> Seq<int> {
    let a = triangle_of(cols, x, y, false);
    let b = triangle_of(cols, x, y, true);
    seq![a.0, a.1, a.2, b.0, b.1, b.2]
}

/// Corners of the first `n` quads, taken column by column over the
/// `(cols - 1) x (rows - 1)` quads.
pub open spec fn corners_upto(cols: int, rows: int, n: nat) -> Seq<int>
    decreases n,
{
    if n == 0 {
        Seq::empty()
    } else {
        corners_upto(cols, rows, (n - 1) as nat) + quad_corners(
            cols,
            (n - 1) / (rows - 1),
            (n - 1) % (rows - 1),
        )
    }
}

/// For each entry of the vertex buffers, the particle it shows.
pub open spec fn mesh_corners(cols: int, rows: int) -> Seq<int> {
    corners_upto(cols, rows, ((cols - 1) * (rows - 1)) as nat)
}

/// Number of entries in each vertex buffer.
pub open spec fn buffer_len(cols: int, rows: int) -> int {
    6 * (cols - 1) * (rows - 1)
}

/// Whether particle `i` is anchored: the first and the last `pins` columns
/// of the top row.
pub open spec fn is_pinned(cols: int, pins: int, i: int) -> bool {
    0 <= i < cols && (i < pins || i >= cols - pins)
}

/// Position `n` of a column-by-column walk over a lattice `h` rows high is
/// column `n / h`, row `n % h`.
pub proof fn lemma_cell_order(n: int, h: int, x: int, y: int)
    requires
        h > 0,
        0 <= y < h,
        n == x * h + y,
    ensures
        n / h == x,
        n % h == y,
{
    lemma_fundamental_div_mod_converse(n, h, x, y);
}

/// An index of the lattice lies below `cols * rows`.
pub proof fn lemma_index_bound(cols: int, rows: int, x: int, y: int)
    requires
        0 <= x < cols,
        0 <= y < rows,
    ensures
        0 <= index_of(cols, x, y) < cols * rows,
{
    assert(0 <= y * cols) by (nonlinear_arith)
        requires
            0 <= y,
            0 <= x < cols,
    ;
    assert(y * cols + cols <= rows * cols) by (nonlinear_arith)
        requires
            y < rows,
            0 <= x < cols,
    ;
    assert(rows * cols == cols * rows) by (nonlinear_arith);
}

/// Every pair in `links` goes from a lower index to a higher one.
pub open spec fn forward_links(links: Seq<(int, int)>) -> bool {
    forall|k: int| 0 <= k < links.len() ==> (#[trigger] links[k]).0 < links[k].1
}

/// The links made at one cell all go forward.
pub proof fn lemma_cell_links_forward(cols: int, rows: int, gap: int, x: int, y: int)
    requires
        cols >= 1,
        gap >= 1,
        0 <= x < cols,
        0 <= y < rows,
    ensures
        forward_links(cell_links(cols, rows, gap, x, y)),
{
    assert((y + gap) * cols == y * cols + gap * cols) by (nonlinear_arith);
    assert(gap * cols >= gap) by (nonlinear_arith)
        requires
            cols >= 1,
            gap >= 1,
    ;
    if x + gap < cols {
        assert(gap * cols >= 2 * gap) by (nonlinear_arith)
            requires
                cols >= 2,
                gap >= 1,
        ;
    }
}

/// The links of the first `n` cells of a sweep all go forward.
pub proof fn lemma_sweep_forward(cols: int, rows: int, gap: int, n: nat)
    requires
        cols >= 1,
        rows >= 1,
        gap >= 1,
        n <= cols * rows,
    ensures
        forward_links(sweep_links(cols, rows, gap, n)),
    decreases n,
{
    if n > 0 {
        let m = n - 1;
        lemma_sweep_forward(cols, rows, gap, m as nat);
        let x = m / rows;
        let y = m % rows;
        assert(x < cols) by (nonlinear_arith)
            requires
                rows >= 1,
                x == m / rows,
                0 <= m < cols * rows,
        ;
        lemma_cell_links_forward(cols, rows, gap, x, y);
        let front = sweep_links(cols, rows, gap, m as nat);
        let back = cell_links(cols, rows, gap, x, y);
        let all = sweep_links(cols, rows, gap, n);
        assert(all == front + back);
        assert forall|k: int| 0 <= k < all.len() implies (#[trigger] all[k]).0 < all[k].1 by {
            if k < front.len() {
                assert(all[k] == front[k]);
            } else {
                assert(all[k] == back[k - front.len()]);
            }
        }
    }
}

/// No constraint of the lattice points backwards: each joins a particle to
/// one with a higher index.
pub proof fn lemma_links_forward(cols: int, rows: int)
    requires
        cols >= 1,
        rows >= 1,
    ensures
        forward_links(link_pairs(cols, rows)),
{
    let n = (cols * rows) as nat;
    assert(cols * rows >= 1) by (nonlinear_arith)
        requires
            cols >= 1,
            rows >= 1,
    ;
    lemma_sweep_forward(cols, rows, 1, n);
    lemma_sweep_forward(cols, rows, 2, n);
    let a = sweep_links(cols, rows, 1, n);
    let b = sweep_links(cols, rows, 2, n);
    let all = link_pairs(cols, rows);
    assert forall|k: int| 0 <= k < all.len() implies (#[trigger] all[k]).0 < all[k].1 by {
        if k < a.len() {
            assert(all[k] == a[k]);
        } else {
            assert(all[k] == b[k - a.len()]);
        }
    }
}

/// The corner sequence holds six entries per quad.
pub proof fn lemma_corners_len(cols: int, rows: int, n: nat)
    ensures
        corners_upto(cols, rows, n).len() == 6 * n,
    decreases n,
{
    if n > 0 {
        lemma_corners_len(cols, rows, (n - 1) as nat);
    }
}

/// Every corner of a lattice with at least two rows and two columns is a
/// valid particle index.
pub proof fn lemma_corners_in_bounds(cols: int, rows: int, n: nat)
    requires
        cols >= 2,
        rows >= 2,
        n <= (cols - 1) * (rows - 1),
    ensures
        forall|k: int|
            0 <= k < corners_upto(cols, rows, n).len() ==> 0 <= #[trigger] corners_upto(
                cols,
                rows,
                n,
            )[k] < cols * rows,
    decreases n,
{
    lemma_corners_len(cols, rows, n);
    if n > 0 {
        let m = (n - 1) as int;
        lemma_corners_in_bounds(cols, rows, m as nat);
        lemma_corners_len(cols, rows, m as nat);
        let h = rows - 1;
        let x = m / h;
        let y = m % h;
        assert(0 <= x < cols - 1) by (nonlinear_arith)
            requires
                h > 0,
                x == m / h,
                0 <= m < (cols - 1) * h,
        ;
        assert(0 <= y < h);
        lemma_index_bound(cols, rows, x, y);
        lemma_index_bound(cols, rows, x + 1, y);
        lemma_index_bound(cols, rows, x, y + 1);
        lemma_index_bound(cols, rows, x + 1, y + 1);
        let s = corners_upto(cols, rows, n);
        assert forall|k: int| 0 <= k < s.len() implies 0 <= #[trigger] s[k] < cols * rows by {
            if k < 6 * m {
                assert(s[k] == corners_upto(cols, rows, m as nat)[k]);
            }
        }
    }
}

/// Flat index of `(x, y)`.
pub fn grid_index(cols: usize, rows: usize, x: usize, y: usize) -> (i: usize)
    requires
        x < cols,
        y < rows,
        cols * rows <= usize::MAX,
    ensures
        i == index_of(cols as int, x as int, y as int),
        i < cols * rows,
{
    proof {
        lemma_index_bound(cols as int, rows as int, x as int, y as int);
    }
    y * cols + x
}

fn push_link(out: &mut Vec<(usize, usize)>, a: usize, b: usize, n: Ghost<int>)
    requires
        pairs_in_bounds(old(out)@, n@),
        a < n@,
        b < n@,
    ensures
        pairs_view(final(out)@) == pairs_view(old(out)@).push((a as int, b as int)),
        pairs_in_bounds(final(out)@, n@),
{
    let ghost before = out@;
    out.push((a, b));
    proof {
        assert(pairs_view(out@) =~= pairs_view(before).push((a as int, b as int)));
    }
}

fn push_cell_links(
    cols: usize,
    rows: usize,
    gap: usize,
    x: usize,
    y: usize,
    out: &mut Vec<(usize, usize)>,
)
    requires
        x < cols,
        y < rows,
        gap <= 2,
        cols * rows <= usize::MAX,
        pairs_in_bounds(old(out)@, cols * rows),
    ensures
        pairs_in_bounds(final(out)@, cols * rows),
        pairs_view(final(out)@) == pairs_view(old(out)@) + cell_links(
            cols as int,
            rows as int,
            gap as int,
            x as int,
            y as int,
        ),
{
    let ghost c = cols as int;
    let ghost r = rows as int;
    let ghost before = pairs_view(out@);
    let here = grid_index(cols, rows, x, y);
    if gap < cols - x {
        let right = grid_index(cols, rows, x + gap, y);
        push_link(out, here, right, Ghost(cols * rows));
    }
    let ghost after_along = pairs_view(out@);
    if gap < rows - y {
        let below = grid_index(cols, rows, x, y + gap);
        push_link(out, here, below, Ghost(cols * rows));
    }
    let ghost after_down = pairs_view(out@);
    if gap < cols - x && gap < rows - y {
        let corner = grid_index(cols, rows, x + gap, y + gap);
        let right = grid_index(cols, rows, x + gap, y);
        let below = grid_index(cols, rows, x, y + gap);
        push_link(out, here, corner, Ghost(cols * rows));
        push_link(out, right, below, Ghost(cols * rows));
    }
    proof {
        let g = gap as int;
        let xi = x as int;
        let yi = y as int;
        let along = if xi + g < c {
            seq![(index_of(c, xi, yi), index_of(c, xi + g, yi))]
        } else {
            Seq::<(int, int)>::empty()
        };
        let down = if yi + g < r {
            seq![(index_of(c, xi, yi), index_of(c, xi, yi + g))]
        } else {
            Seq::<(int, int)>::empty()
        };
        let across = if xi + g < c && yi + g < r {
            seq![
                (index_of(c, xi, yi), index_of(c, xi + g, yi + g)),
                (index_of(c, xi + g, yi), index_of(c, xi, yi + g)),
            ]
        } else {
            Seq::<(int, int)>::empty()
        };
        assert(after_along =~= before + along);
        assert(after_down =~= before + along + down);
        assert(pairs_view(out@) =~= before + along + down + across);
        assert(cell_links(c, r, g, xi, yi) == along + down + across);
        assert(before + along + down + across =~= before + (along + down + across));
    }
}

fn push_sweep(cols: usize, rows: usize, gap: usize, out: &mut Vec<(usize, usize)>)
    requires
        cols >= 1,
        rows >= 1,
        gap <= 2,
        cols * rows <= usize::MAX,
        pairs_in_bounds(old(out)@, cols * rows),
    ensures
        pairs_in_bounds(final(out)@, cols * rows),
        pairs_view(final(out)@) == pairs_view(old(out)@) + sweep_links(
            cols as int,
            rows as int,
            gap as int,
            (cols * rows) as nat,
        ),
{
    let ghost c = cols as int;
    let ghost r = rows as int;
    let ghost g = gap as int;
    let ghost start = pairs_view(out@);
    let mut x: usize = 0;
    while x < cols
        invariant
            x <= cols,
            cols >= 1,
            rows >= 1,
            gap <= 2,
            cols * rows <= usize::MAX,
            c == cols,
            r == rows,
            g == gap,
            pairs_in_bounds(out@, cols * rows),
            pairs_view(out@) == start + sweep_links(c, r, g, (x * rows) as nat),
        decreases cols - x,
    {
        let mut y: usize = 0;
        while y < rows
            invariant
                x < cols,
                y <= rows,
                cols >= 1,
                rows >= 1,
                gap <= 2,
                cols * rows <= usize::MAX,
                c == cols,
                r == rows,
                g == gap,
                pairs_in_bounds(out@, cols * rows),
                pairs_view(out@) == start + sweep_links(c, r, g, (x * rows + y) as nat),
            decreases rows - y,
        {
            let ghost n = x * rows + y;
            push_cell_links(cols, rows, gap, x, y, out);
            proof {
                lemma_cell_order(n, r, x as int, y as int);
                assert(sweep_links(c, r, g, (n + 1) as nat) == sweep_links(c, r, g, n as nat)
                    + cell_links(c, r, g, x as int, y as int));
                assert(start + sweep_links(c, r, g, n as nat) + cell_links(
                    c,
                    r,
                    g,
                    x as int,
                    y as int,
                ) =~= start + sweep_links(c, r, g, (n + 1) as nat));
            }
            y = y + 1;
        }
        proof {
            assert(x * rows + rows == (x + 1) * rows) by (nonlinear_arith);
        }
        x = x + 1;
    }
}

/// The index pairs of every constraint of a `cols x rows` lattice, in
/// creation order.
pub fn constraint_links(cols: usize, rows: usize) -> (links: Vec<(usize, usize)>)
    requires
        cols >= 1,
        rows >= 1,
        cols * rows <= usize::MAX,
    ensures
        pairs_view(links@) == link_pairs(cols as int, rows as int),
        pairs_in_bounds(links@, cols * rows),
{
    let mut links: Vec<(usize, usize)> = Vec::new();
    proof {
        assert(pairs_view(links@) =~= Seq::empty());
    }
    push_sweep(cols, rows, 1, &mut links);
    push_sweep(cols, rows, 2, &mut links);
    proof {
        assert(pairs_view(links@) =~= link_pairs(cols as int, rows as int));
    }
    links
}

} // verus!
