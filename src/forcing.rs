use vstd::prelude::*;

use crate::grid::Grid;

verus! {

/// A point event lands on the grid only strictly inside both axes: the first
/// row and column are left out as well as everything past the last.
pub open spec fn event_lands(dimx: int, dimy: int, x: int, y: int) -> bool {
    0 < x < dimx && 0 < y < dimy
}

/// The cell that the periodic source drives: two thirds along each axis.
pub open spec fn spec_source_cell(dimx: int, dimy: int) -> (int, int) {
    (2 * dimx / 3, 2 * dimy / 3)
}

/// Cell `(x, y)` is hit by the forcing of one tick.
pub open spec fn forced_at(
    dimx: int,
    dimy: int,
    source_fired: bool,
    events: Seq<(usize, usize)>,
    x: int,
    y: int,
) -> bool {
    ||| source_fired && (x, y) == spec_source_cell(dimx, dimy)
    ||| event_lands(dimx, dimy, x, y) && exists|i: int|
        0 <= i < events.len() && #[trigger] events[i] == (x as usize, y as usize)
}

/// The cell driven by the periodic source of a `dimx` by `dimy` grid.
pub fn source_cell(dimx: usize, dimy: usize) -> (r: (usize, usize))
    requires
        dimx * dimy <= usize::MAX,
        dimx >= 3,
        dimy >= 3,
    ensures
        (r.0 as int, r.1 as int) == spec_source_cell(dimx as int, dimy as int),
        r.0 < dimx,
        r.1 < dimy,
{
    assert(dimx * 3 <= dimx * dimy) by (nonlinear_arith)
        requires
            dimy >= 3,
    ;
    assert(dimy * 3 <= dimx * dimy) by (nonlinear_arith)
        requires
            dimx >= 3,
    ;
    (2 * dimx / 3, 2 * dimy / 3)
}

/// Applies the forcing of one tick to the current layer: the periodic source
/// if it fired, then each point event in order, dropping those that do not
/// land.  Each hit cell is set to `amplitude`, overwriting what it held.
pub fn apply_force<T: Copy>(
    grid: &mut Grid<T>,
    source_fired: bool,
    events: &Vec<(usize, usize)>,
    amplitude: T,
)
    requires
        old(grid).wf(),
        old(grid).dimx >= 3,
        old(grid).dimy >= 3,
    ensures
        final(grid).wf(),
        final(grid).dimx == old(grid).dimx,
        final(grid).dimy == old(grid).dimy,
        final(grid).previous@ == old(grid).previous@,
        final(grid).older@ == old(grid).older@,
        forall|x: int, y: int|
            0 <= x < old(grid).dimx && 0 <= y < old(grid).dimy ==> #[trigger] final(grid).at(
                0,
                x,
                y,
            ) == if forced_at(
                old(grid).dimx as int,
                old(grid).dimy as int,
                source_fired,
                events@,
                x,
                y,
            ) {
                amplitude
            } else {
                old(grid).at(0, x, y)
            },
{
    let ghost g0 = *grid;
    let dimx = grid.dimx;
    let dimy = grid.dimy;
    if source_fired {
        let (sx, sy) = source_cell(dimx, dimy);
        grid.set(sx, sy, amplitude);
    }
    let mut k: usize = 0;
    while k < events.len()
        invariant
            k <= events@.len(),
            grid.wf(),
            grid.dimx == dimx,
            grid.dimy == dimy,
            dimx == g0.dimx,
            dimy == g0.dimy,
            grid.previous@ == g0.previous@,
            grid.older@ == g0.older@,
            forall|x: int, y: int|
                0 <= x < dimx && 0 <= y < dimy ==> #[trigger] grid.at(0, x, y) == if forced_at(
                    dimx as int,
                    dimy as int,
                    source_fired,
                    events@.subrange(0, k as int),
                    x,
                    y,
                ) {
                    amplitude
                } else {
                    g0.at(0, x, y)
                },
        decreases events@.len() - k,
    {
        let (ex, ey) = events[k];
        let ghost before = *grid;
        let ghost done = events@.subrange(0, k as int);
        let ghost next = events@.subrange(0, k + 1);
        assert forall|i: int| 0 <= i < done.len() implies next[i] == #[trigger] done[i] by {}
        assert(next[k as int] == (ex, ey));
        if 0 < ex && ex < dimx && 0 < ey && ey < dimy {
            grid.set(ex, ey, amplitude);
        }
        assert forall|x: int, y: int| 0 <= x < dimx && 0 <= y < dimy implies #[trigger] grid.at(
            0,
            x,
            y,
        ) == if forced_at(dimx as int, dimy as int, source_fired, next, x, y) {
            amplitude
        } else {
            g0.at(0, x, y)
        } by {
            let hit_done = exists|i: int|
                0 <= i < done.len() && #[trigger] done[i] == (x as usize, y as usize);
            let hit_next = exists|i: int|
                0 <= i < next.len() && #[trigger] next[i] == (x as usize, y as usize);
            if hit_done {
                let i = choose|i: int|
                    0 <= i < done.len() && #[trigger] done[i] == (x as usize, y as usize);
                assert(next[i] == done[i]);
            }
            if hit_next && !hit_done {
                let i = choose|i: int|
                    0 <= i < next.len() && #[trigger] next[i] == (x as usize, y as usize);
                if i < k {
                    assert(done[i] == next[i]);
                }
                assert(i == k);
            }
            assert(before.at(0, x, y) == grid.at(0, x, y) || (x == ex && y == ey));
        }
        k = k + 1;
    }
    assert(events@.subrange(0, events@.len() as int) =~= events@);
}

} // verus!
