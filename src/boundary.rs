use vstd::prelude::*;

use crate::grid::{cell, Grid};

verus! {

/// Offset from a cell to its neighbour one step toward the interior, for a
/// strip on the far-x (0), near-x (1), far-y (2) or near-y (3) edge.
pub open spec fn inward(side: int) -> (int, int) {
    if side == 0 {
        (-1, 0)
    } else if side == 1 {
        (1, 0)
    } else if side == 2 {
        (0, -1)
    } else {
        (0, 1)
    }
}

/// The rectangle `[x0, x1) × [y0, y1)` of the edge strip on `side`, for a
/// band of width `m`.  The strips along x leave out the first and last row,
/// the strips along y the first and last column.
pub open spec fn strip(dimx: int, dimy: int, m: int, side: int) -> (int, int, int, int) {
    if side == 0 {
        (dimx - m, dimx, 1, dimy - 1)
    } else if side == 1 {
        (0, m, 1, dimy - 1)
    } else if side == 2 {
        (1, dimx - 1, dimy - m, dimy)
    } else {
        (1, dimx - 1, 0, m)
    }
}

pub open spec fn in_rect(r: (int, int, int, int), x: int, y: int) -> bool {
    r.0 <= x < r.1 && r.2 <= y < r.3
}

/// One strip of the absorbing boundary, from `before` to `after`: each cell
/// of the strip gets what `rule` makes of `(Kappa of the cell, current layer
/// at the inward neighbour, previous layer at the cell, previous layer at the
/// inward neighbour)`, all read as they stood before the strip; every other
/// cell and the other layers are untouched.
pub open spec fn strip_applied<T, F: Fn(T, T, T, T) -> T>(
    before: Grid<T>,
    after: Grid<T>,
    kappa: Seq<T>,
    m: int,
    side: int,
    rule: F,
) -> bool {
    let r = strip(before.dimx as int, before.dimy as int, m, side);
    let (dx, dy) = inward(side);
    &&& after.dimx == before.dimx
    &&& after.dimy == before.dimy
    &&& after.previous@ == before.previous@
    &&& after.older@ == before.older@
    &&& after.current@.len() == before.current@.len()
    &&& forall|x: int, y: int|
        0 <= x < before.dimx && 0 <= y < before.dimy ==> {
            let v = #[trigger] after.at(0, x, y);
            if in_rect(r, x, y) {
                rule.ensures(
                    (
                        cell(kappa, before.dimy as int, x, y),
                        before.at(0, x + dx, y + dy),
                        before.at(1, x, y),
                        before.at(1, x + dx, y + dy),
                    ),
                    v,
                )
            } else {
                v == before.at(0, x, y)
            }
        }
}

/// The whole absorbing boundary, from `before` to `after`: the four strips
/// in their fixed order, each applied to what the one before it left.
pub open spec fn absorbed<T, F: Fn(T, T, T, T) -> T>(
    before: Grid<T>,
    after: Grid<T>,
    kappa: Seq<T>,
    m: int,
    rule: F,
) -> bool {
    exists|s1: Grid<T>, s2: Grid<T>, s3: Grid<T>|
        {
            &&& strip_applied(before, s1, kappa, m, 0, rule)
            &&& strip_applied(s1, s2, kappa, m, 1, rule)
            &&& strip_applied(s2, s3, kappa, m, 2, rule)
            &&& strip_applied(s3, after, kappa, m, 3, rule)
        }
}

/// A copy of `v`.
fn copy_of<T: Copy>(v: &Vec<T>) -> (r: Vec<T>)
    ensures
        r@ == v@,
{
    let mut r: Vec<T> = Vec::with_capacity(v.len());
    let mut i: usize = 0;
    while i < v.len()
        invariant
            i <= v@.len(),
            r@ == v@.subrange(0, i as int),
        decreases v@.len() - i,
    {
        r.push(v[i]);
        i = i + 1;
    }
    assert(r@ =~= v@);
    r
}

fn apply_strip<T: Copy, F: Fn(T, T, T, T) -> T>(
    grid: &mut Grid<T>,
    kappa: &Vec<T>,
    m: usize,
    side: usize,
    rule: &F,
)
    requires
        old(grid).wf(),
        1 <= m,
        old(grid).dimx > 2 * m,
        old(grid).dimy > 2 * m,
        side < 4,
        kappa@.len() == old(grid).dimx * old(grid).dimy,
        forall|a: T, b: T, c: T, d: T| rule.requires((a, b, c, d)),
    ensures
        final(grid).wf(),
        strip_applied(*old(grid), *final(grid), kappa@, m as int, side as int, *rule),
{
    let ghost g0 = *grid;
    let dimx = grid.dimx;
    let dimy = grid.dimy;
    let snap = copy_of(&grid.current);
    let (x0, x1, y0, y1) = if side == 0 {
        (dimx - m, dimx, 1, dimy - 1)
    } else if side == 1 {
        (0, m, 1, dimy - 1)
    } else if side == 2 {
        (1, dimx - 1, dimy - m, dimy)
    } else {
        (1, dimx - 1, 0, m)
    };
    let ghost r = strip(dimx as int, dimy as int, m as int, side as int);
    let ghost (dx, dy) = inward(side as int);
    assert(r == (x0 as int, x1 as int, y0 as int, y1 as int));
    let mut x: usize = x0;
    while x < x1
        invariant
            x0 <= x <= x1,
            r == (x0 as int, x1 as int, y0 as int, y1 as int),
            (dx, dy) == inward(side as int),
            side < 4,
            1 <= m,
            dimx > 2 * m,
            dimy > 2 * m,
            r == strip(dimx as int, dimy as int, m as int, side as int),
            dimx == g0.dimx,
            dimy == g0.dimy,
            g0.wf(),
            snap@ == g0.current@,
            kappa@.len() == dimx * dimy,
            forall|a: T, b: T, c: T, d: T| rule.requires((a, b, c, d)),
            grid.wf(),
            grid.dimx == dimx,
            grid.dimy == dimy,
            grid.previous@ == g0.previous@,
            grid.older@ == g0.older@,
            forall|x2: int, y2: int|
                0 <= x2 < dimx && 0 <= y2 < dimy ==> {
                    let v = #[trigger] grid.at(0, x2, y2);
                    if x0 <= x2 < x && y0 <= y2 < y1 {
                        rule.ensures(
                            (
                                cell(kappa@, dimy as int, x2, y2),
                                g0.at(0, x2 + dx, y2 + dy),
                                g0.at(1, x2, y2),
                                g0.at(1, x2 + dx, y2 + dy),
                            ),
                            v,
                        )
                    } else {
                        v == g0.at(0, x2, y2)
                    }
                },
        decreases x1 - x,
    {
        let mut y: usize = y0;
        while y < y1
            invariant
                x0 <= x < x1,
                y0 <= y <= y1,
                r == (x0 as int, x1 as int, y0 as int, y1 as int),
                (dx, dy) == inward(side as int),
                side < 4,
                1 <= m,
                dimx > 2 * m,
                dimy > 2 * m,
                r == strip(dimx as int, dimy as int, m as int, side as int),
                dimx == g0.dimx,
                dimy == g0.dimy,
                g0.wf(),
                snap@ == g0.current@,
                kappa@.len() == dimx * dimy,
                forall|a: T, b: T, c: T, d: T| rule.requires((a, b, c, d)),
                grid.wf(),
                grid.dimx == dimx,
                grid.dimy == dimy,
                grid.previous@ == g0.previous@,
                grid.older@ == g0.older@,
                forall|x2: int, y2: int|
                    0 <= x2 < dimx && 0 <= y2 < dimy ==> {
                        let v = #[trigger] grid.at(0, x2, y2);
                        if (x0 <= x2 < x && y0 <= y2 < y1) || (x2 == x && y0 <= y2 < y) {
                            rule.ensures(
                                (
                                    cell(kappa@, dimy as int, x2, y2),
                                    g0.at(0, x2 + dx, y2 + dy),
                                    g0.at(1, x2, y2),
                                    g0.at(1, x2 + dx, y2 + dy),
                                ),
                                v,
                            )
                        } else {
                            v == g0.at(0, x2, y2)
                        }
                    },
            decreases y1 - y,
        {
            let (ix, iy) = if side == 0 {
                (x - 1, y)
            } else if side == 1 {
                (x + 1, y)
            } else if side == 2 {
                (x, y - 1)
            } else {
                (x, y + 1)
            };
            assert(ix == x + dx && iy == y + dy);
            let i = grid.index(x, y);
            let j = grid.index(ix, iy);
            let v = rule(kappa[i], snap[j], grid.previous[i], grid.previous[j]);
            grid.set(x, y, v);
            y = y + 1;
        }
        x = x + 1;
    }
}

/// The absorbing (one-way) boundary: the four edge strips of width `m` are
/// updated one after the other, far-x, near-x, far-y, near-y, each from the
/// current layer as the strips before it left it.  For the wave equation the
/// rule is `((Kappa − 1) / (Kappa + 1)) · (current_inward − previous_self) +
/// previous_inward`.
pub fn update_with_absorbing_boundary<T: Copy, F: Fn(T, T, T, T) -> T>(
    grid: &mut Grid<T>,
    kappa: &Vec<T>,
    m: usize,
    rule: &F,
)
    requires
        old(grid).wf(),
        1 <= m,
        old(grid).dimx > 2 * m,
        old(grid).dimy > 2 * m,
        kappa@.len() == old(grid).dimx * old(grid).dimy,
        forall|a: T, b: T, c: T, d: T| rule.requires((a, b, c, d)),
    ensures
        final(grid).wf(),
        final(grid).dimx == old(grid).dimx,
        final(grid).dimy == old(grid).dimy,
        final(grid).previous@ == old(grid).previous@,
        final(grid).older@ == old(grid).older@,
        absorbed(*old(grid), *final(grid), kappa@, m as int, *rule),
{
    apply_strip(grid, kappa, m, 0, rule);
    apply_strip(grid, kappa, m, 1, rule);
    apply_strip(grid, kappa, m, 2, rule);
    apply_strip(grid, kappa, m, 3, rule);
}

} // verus!
