use vstd::prelude::*;

use crate::config::StencilKind;
use crate::grid::{cell, Grid};

verus! {

/// What the compact stencil sees around one cell: the coefficient `Tau` of
/// the cell, the cell itself in the previous and older layers, and its four
/// orthogonal neighbours in the previous layer (west is `x - 1`, east
/// `x + 1`, south `y - 1`, north `y + 1`).
#[derive(Clone, Copy, Debug, PartialEq, Eq)]
pub struct Cross<T> {
    pub coef: T,
    pub center: T,
    pub older: T,
    pub west: T,
    pub east: T,
    pub south: T,
    pub north: T,
}

/// The previous layer along one direction from a cell, at distances one to
/// four.
#[derive(Clone, Copy, Debug, PartialEq, Eq)]
pub struct Arm<T> {
    pub d1: T,
    pub d2: T,
    pub d3: T,
    pub d4: T,
}

/// What the wide stencil sees around one cell: as `Cross`, with four
/// neighbours in each direction.
#[derive(Clone, Copy, Debug, PartialEq, Eq)]
pub struct WideCross<T> {
    pub coef: T,
    pub center: T,
    pub older: T,
    pub west: Arm<T>,
    pub east: Arm<T>,
    pub south: Arm<T>,
    pub north: Arm<T>,
}

/// The compact neighbourhood of cell `(x, y)` of `g`, with coefficients `tau`.
pub open spec fn cross_at<T>(g: Grid<T>, tau: Seq<T>, x: int, y: int) -> Cross<T> {
    let p = g.previous@;
    let d = g.dimy as int;
    Cross {
        coef: cell(tau, d, x, y),
        center: cell(p, d, x, y),
        older: cell(g.older@, d, x, y),
        west: cell(p, d, x - 1, y),
        east: cell(p, d, x + 1, y),
        south: cell(p, d, x, y - 1),
        north: cell(p, d, x, y + 1),
    }
}

/// The previous layer at distances one to four from `(x, y)` in direction
/// `(dx, dy)`.
pub open spec fn arm_at<T>(g: Grid<T>, x: int, y: int, dx: int, dy: int) -> Arm<T> {
    let p = g.previous@;
    let d = g.dimy as int;
    Arm {
        d1: cell(p, d, x + dx, y + dy),
        d2: cell(p, d, x + 2 * dx, y + 2 * dy),
        d3: cell(p, d, x + 3 * dx, y + 3 * dy),
        d4: cell(p, d, x + 4 * dx, y + 4 * dy),
    }
}

/// The wide neighbourhood of cell `(x, y)` of `g`, with coefficients `tau`.
pub open spec fn wide_cross_at<T>(g: Grid<T>, tau: Seq<T>, x: int, y: int) -> WideCross<T> {
    let d = g.dimy as int;
    WideCross {
        coef: cell(tau, d, x, y),
        center: cell(g.previous@, d, x, y),
        older: cell(g.older@, d, x, y),
        west: arm_at(g, x, y, -1, 0),
        east: arm_at(g, x, y, 1, 0),
        south: arm_at(g, x, y, 0, -1),
        north: arm_at(g, x, y, 0, 1),
    }
}

/// Cell `(x, y)` lies in the interior left by a band of width `m`.
pub open spec fn in_interior(dimx: int, dimy: int, m: int, x: int, y: int) -> bool {
    m <= x < dimx - m && m <= y < dimy - m
}

/// After a sweep of the interior by `rule`: every interior cell of the current
/// layer holds a result of `rule` on what `window` gives for it, every other
/// cell keeps its value, and the other layers are untouched.
pub open spec fn swept<T, W>(
    before: Grid<T>,
    after: Grid<T>,
    m: int,
    window: spec_fn(int, int) -> W,
    holds: spec_fn(W, T) -> bool,
) -> bool {
    &&& after.dimx == before.dimx
    &&& after.dimy == before.dimy
    &&& after.previous@ == before.previous@
    &&& after.older@ == before.older@
    &&& after.current@.len() == before.current@.len()
    &&& forall|x: int, y: int|
        0 <= x < before.dimx && 0 <= y < before.dimy ==> {
            let v = #[trigger] after.at(0, x, y);
            if in_interior(before.dimx as int, before.dimy as int, m, x, y) {
                holds(window(x, y), v)
            } else {
                v == before.at(0, x, y)
            }
        }
}

fn cross_of<T: Copy>(g: &Grid<T>, tau: &Vec<T>, x: usize, y: usize) -> (c: Cross<T>)
    requires
        g.wf(),
        tau@.len() == g.dimx * g.dimy,
        1 <= x < g.dimx - 1,
        1 <= y < g.dimy - 1,
    ensures
        c == cross_at(*g, tau@, x as int, y as int),
{
    let i = g.index(x, y);
    let iw = g.index(x - 1, y);
    let ie = g.index(x + 1, y);
    let is = g.index(x, y - 1);
    let in_ = g.index(x, y + 1);
    Cross {
        coef: tau[i],
        center: g.previous[i],
        older: g.older[i],
        west: g.previous[iw],
        east: g.previous[ie],
        south: g.previous[is],
        north: g.previous[in_],
    }
}

/// One leapfrog step of the compact stencil: every cell at least one away
/// from each edge gets, in the current layer, what `rule` makes of its
/// neighbourhood (`Tau · (west + east + south + north − 4 · center) +
/// 2 · center − older` for the wave equation).  Nothing else is read or
/// written.
pub fn update_with_laplace_operator_1<T: Copy, F: Fn(&Cross<T>) -> T>(
    grid: &mut Grid<T>,
    tau: &Vec<T>,
    rule: &F,
)
    requires
        old(grid).wf(),
        old(grid).dimx > 2,
        old(grid).dimy > 2,
        tau@.len() == old(grid).dimx * old(grid).dimy,
        forall|c: Cross<T>| rule.requires((&c,)),
    ensures
        final(grid).wf(),
        swept(
            *old(grid),
            *final(grid),
            1,
            |x: int, y: int| cross_at(*old(grid), tau@, x, y),
            |c: Cross<T>, v: T| rule.ensures((&c,), v),
        ),
{
    let ghost g0 = *grid;
    let dimx = grid.dimx;
    let dimy = grid.dimy;
    let mut x: usize = 1;
    while x < dimx - 1
        invariant
            1 <= x <= dimx - 1,
            dimx == g0.dimx,
            dimy == g0.dimy,
            g0.wf(),
            g0.dimx > 2,
            g0.dimy > 2,
            tau@.len() == dimx * dimy,
            forall|c: Cross<T>| rule.requires((&c,)),
            grid.wf(),
            grid.dimx == dimx,
            grid.dimy == dimy,
            grid.previous@ == g0.previous@,
            grid.older@ == g0.older@,
            forall|x2: int, y2: int|
                0 <= x2 < dimx && 0 <= y2 < dimy ==> {
                    let v = #[trigger] grid.at(0, x2, y2);
                    if 1 <= x2 < x && 1 <= y2 < dimy - 1 {
                        rule.ensures((&cross_at(g0, tau@, x2, y2),), v)
                    } else {
                        v == g0.at(0, x2, y2)
                    }
                },
        decreases dimx - 1 - x,
    {
        let mut y: usize = 1;
        while y < dimy - 1
            invariant
                1 <= x < dimx - 1,
                1 <= y <= dimy - 1,
                dimx == g0.dimx,
                dimy == g0.dimy,
                g0.wf(),
                g0.dimx > 2,
                g0.dimy > 2,
                tau@.len() == dimx * dimy,
                forall|c: Cross<T>| rule.requires((&c,)),
                grid.wf(),
                grid.dimx == dimx,
                grid.dimy == dimy,
                grid.previous@ == g0.previous@,
                grid.older@ == g0.older@,
                forall|x2: int, y2: int|
                    0 <= x2 < dimx && 0 <= y2 < dimy ==> {
                        let v = #[trigger] grid.at(0, x2, y2);
                        if (1 <= x2 < x && 1 <= y2 < dimy - 1) || (x2 == x && 1 <= y2 < y) {
                            rule.ensures((&cross_at(g0, tau@, x2, y2),), v)
                        } else {
                            v == g0.at(0, x2, y2)
                        }
                    },
            decreases dimy - 1 - y,
        {
            let c = cross_of(grid, tau, x, y);
            assert(c == cross_at(g0, tau@, x as int, y as int));
            let v = rule(&c);
            grid.set(x, y, v);
            y = y + 1;
        }
        x = x + 1;
    }
}

fn arm_of<T: Copy>(g: &Grid<T>, x: usize, y: usize, dir: usize) -> (a: Arm<T>)
    requires
        g.wf(),
        4 <= x < g.dimx - 4,
        4 <= y < g.dimy - 4,
        dir < 4,
    ensures
        dir == 0 ==> a == arm_at(*g, x as int, y as int, -1, 0),
        dir == 1 ==> a == arm_at(*g, x as int, y as int, 1, 0),
        dir == 2 ==> a == arm_at(*g, x as int, y as int, 0, -1),
        dir == 3 ==> a == arm_at(*g, x as int, y as int, 0, 1),
{
    if dir == 0 {
        Arm {
            d1: g.previous[g.index(x - 1, y)],
            d2: g.previous[g.index(x - 2, y)],
            d3: g.previous[g.index(x - 3, y)],
            d4: g.previous[g.index(x - 4, y)],
        }
    } else if dir == 1 {
        Arm {
            d1: g.previous[g.index(x + 1, y)],
            d2: g.previous[g.index(x + 2, y)],
            d3: g.previous[g.index(x + 3, y)],
            d4: g.previous[g.index(x + 4, y)],
        }
    } else if dir == 2 {
        Arm {
            d1: g.previous[g.index(x, y - 1)],
            d2: g.previous[g.index(x, y - 2)],
            d3: g.previous[g.index(x, y - 3)],
            d4: g.previous[g.index(x, y - 4)],
        }
    } else {
        Arm {
            d1: g.previous[g.index(x, y + 1)],
            d2: g.previous[g.index(x, y + 2)],
            d3: g.previous[g.index(x, y + 3)],
            d4: g.previous[g.index(x, y + 4)],
        }
    }
}

fn wide_cross_of<T: Copy>(g: &Grid<T>, tau: &Vec<T>, x: usize, y: usize) -> (c: WideCross<T>)
    requires
        g.wf(),
        tau@.len() == g.dimx * g.dimy,
        4 <= x < g.dimx - 4,
        4 <= y < g.dimy - 4,
    ensures
        c == wide_cross_at(*g, tau@, x as int, y as int),
{
    let i = g.index(x, y);
    WideCross {
        coef: tau[i],
        center: g.previous[i],
        older: g.older[i],
        west: arm_of(g, x, y, 0),
        east: arm_of(g, x, y, 1),
        south: arm_of(g, x, y, 2),
        north: arm_of(g, x, y, 3),
    }
}

/// One leapfrog step of the wide stencil: every cell at least four away
/// from each edge gets, in the current layer, what `rule` makes of its
/// neighbourhood (`Tau · L + 2 · center − older` for the wave equation, where
/// `L` weighs the arms and the center as `StencilKind::Order4` gives).
/// Nothing else is read or written.
pub fn update_with_laplace_operator_4<T: Copy, F: Fn(&WideCross<T>) -> T>(
    grid: &mut Grid<T>,
    tau: &Vec<T>,
    rule: &F,
)
    requires
        old(grid).wf(),
        old(grid).dimx > 8,
        old(grid).dimy > 8,
        tau@.len() == old(grid).dimx * old(grid).dimy,
        forall|c: WideCross<T>| rule.requires((&c,)),
    ensures
        final(grid).wf(),
        swept(
            *old(grid),
            *final(grid),
            4,
            |x: int, y: int| wide_cross_at(*old(grid), tau@, x, y),
            |c: WideCross<T>, v: T| rule.ensures((&c,), v),
        ),
{
    let ghost g0 = *grid;
    let dimx = grid.dimx;
    let dimy = grid.dimy;
    let mut x: usize = 4;
    while x < dimx - 4
        invariant
            4 <= x <= dimx - 4,
            dimx == g0.dimx,
            dimy == g0.dimy,
            g0.wf(),
            g0.dimx > 8,
            g0.dimy > 8,
            tau@.len() == dimx * dimy,
            forall|c: WideCross<T>| rule.requires((&c,)),
            grid.wf(),
            grid.dimx == dimx,
            grid.dimy == dimy,
            grid.previous@ == g0.previous@,
            grid.older@ == g0.older@,
            forall|x2: int, y2: int|
                0 <= x2 < dimx && 0 <= y2 < dimy ==> {
                    let v = #[trigger] grid.at(0, x2, y2);
                    if 4 <= x2 < x && 4 <= y2 < dimy - 4 {
                        rule.ensures((&wide_cross_at(g0, tau@, x2, y2),), v)
                    } else {
                        v == g0.at(0, x2, y2)
                    }
                },
        decreases dimx - 4 - x,
    {
        let mut y: usize = 4;
        while y < dimy - 4
            invariant
                4 <= x < dimx - 4,
                4 <= y <= dimy - 4,
                dimx == g0.dimx,
                dimy == g0.dimy,
                g0.wf(),
                g0.dimx > 8,
                g0.dimy > 8,
                tau@.len() == dimx * dimy,
                forall|c: WideCross<T>| rule.requires((&c,)),
                grid.wf(),
                grid.dimx == dimx,
                grid.dimy == dimy,
                grid.previous@ == g0.previous@,
                grid.older@ == g0.older@,
                forall|x2: int, y2: int|
                    0 <= x2 < dimx && 0 <= y2 < dimy ==> {
                        let v = #[trigger] grid.at(0, x2, y2);
                        if (4 <= x2 < x && 4 <= y2 < dimy - 4) || (x2 == x && 4 <= y2 < y) {
                            rule.ensures((&wide_cross_at(g0, tau@, x2, y2),), v)
                        } else {
                            v == g0.at(0, x2, y2)
                        }
                    },
            decreases dimy - 4 - y,
        {
            let c = wide_cross_of(grid, tau, x, y);
            assert(c == wide_cross_at(g0, tau@, x as int, y as int));
            let v = rule(&c);
            grid.set(x, y, v);
            y = y + 1;
        }
        x = x + 1;
    }
}

impl StencilKind {
    /// Common denominator of the stencil's weights.
    pub open spec fn spec_denominator(self) -> int {
        match self {
            StencilKind::Order1 => 1,
            StencilKind::Order4 => 5040,
        }
    }

    /// Weight, over the denominator, of each of the four neighbours at
    /// distance `d` from the center; zero beyond the margin.
    pub open spec fn spec_arm_weight(self, d: int) -> int {
        match self {
            StencilKind::Order1 => if d == 1 {
                1
            } else {
                0
            },
            StencilKind::Order4 => if d == 1 {
                8064
            } else if d == 2 {
                -1008
            } else if d == 3 {
                128
            } else if d == 4 {
                -9
            } else {
                0
            },
        }
    }

    /// Weight of the center, over the denominator, both axes together.
    pub open spec fn spec_center_weight(self) -> int {
        match self {
            StencilKind::Order1 => -4,
            StencilKind::Order4 => -28700,
        }
    }

    pub fn denominator(&self) -> (r: i64)
        ensures
            r == self.spec_denominator(),
    {
        match self {
            StencilKind::Order1 => 1,
            StencilKind::Order4 => 5040,
        }
    }

    pub fn arm_weight(&self, d: usize) -> (r: i64)
        ensures
            r == self.spec_arm_weight(d as int),
    {
        match self {
            StencilKind::Order1 => if d == 1 {
                1
            } else {
                0
            },
            StencilKind::Order4 => if d == 1 {
                8064
            } else if d == 2 {
                -1008
            } else if d == 3 {
                128
            } else if d == 4 {
                -9
            } else {
                0
            },
        }
    }

    pub fn center_weight(&self) -> (r: i64)
        ensures
            r == self.spec_center_weight(),
    {
        match self {
            StencilKind::Order1 => -4,
            StencilKind::Order4 => -28700,
        }
    }
}

} // verus!
