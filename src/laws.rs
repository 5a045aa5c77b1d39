use vstd::prelude::*;

use crate::boundary::{absorbed, in_rect, inward, strip, strip_applied};
use crate::config::StencilKind;
use crate::forcing::forced_at;
use crate::grid::{cell, Grid};
use crate::solver::{damped, forced, rotated, stencil_swept, ticked, Rules};
use crate::stencil::{cross_at, in_interior, swept, Cross, WideCross};

verus! {

/// The weights of each stencil balance: four arms' worth of neighbour weights
/// cancel the center weight, so a constant field has a zero Laplacian.
pub proof fn lemma_weights_balance(kind: StencilKind)
    ensures
        4 * (kind.spec_arm_weight(1) + kind.spec_arm_weight(2) + kind.spec_arm_weight(3)
            + kind.spec_arm_weight(4)) + kind.spec_center_weight() == 0,
        forall|d: int| d < 1 || d > kind.spec_margin() ==> kind.spec_arm_weight(d) == 0,
{
}

/// The wide stencil's weights are the fractions 8/5, −1/5, 8/315, −1/560 for
/// distances one to four and −410/72 for the center.
pub proof fn lemma_wide_weights_are_the_fractions()
    ensures
        StencilKind::Order4.spec_arm_weight(1) * 5 == 8 * StencilKind::Order4.spec_denominator(),
        StencilKind::Order4.spec_arm_weight(2) * 5 == -1 * StencilKind::Order4.spec_denominator(),
        StencilKind::Order4.spec_arm_weight(3) * 315 == 8 * StencilKind::Order4.spec_denominator(),
        StencilKind::Order4.spec_arm_weight(4) * 560 == -1
            * StencilKind::Order4.spec_denominator(),
        StencilKind::Order4.spec_center_weight() * 72 == -410
            * StencilKind::Order4.spec_denominator(),
{
}

/// An absorbing tick keeps the history: the previous layer moves to the older
/// layer and the current layer to the previous one, unchanged.
pub proof fn lemma_absorbing_tick_shifts_layers<T, S1: Fn(&Cross<T>) -> T, S4: Fn(
    &WideCross<T>,
) -> T, B: Fn(T, T, T, T) -> T, D: Fn(T) -> T>(
    kind: StencilKind,
    before: Grid<T>,
    after: Grid<T>,
    tau: Seq<T>,
    kappa: Seq<T>,
    rules: Rules<S1, S4, B, D>,
)
    requires
        ticked(kind, true, before, after, tau, kappa, rules),
    ensures
        after.older@ == before.previous@,
        after.previous@ == before.current@,
{
    let s = choose|s: Grid<T>|
        {
            &&& stencil_swept(kind, rotated(before), s, tau, rules.compact, rules.wide)
            &&& absorbed(s, after, kappa, kind.spec_margin() as int, rules.absorb)
        };
    let m = kind.spec_margin() as int;
    let (s1, s2, s3) = choose|s1: Grid<T>, s2: Grid<T>, s3: Grid<T>|
        {
            &&& strip_applied(s, s1, kappa, m, 0, rules.absorb)
            &&& strip_applied(s1, s2, kappa, m, 1, rules.absorb)
            &&& strip_applied(s2, s3, kappa, m, 2, rules.absorb)
            &&& strip_applied(s3, after, kappa, m, 3, rules.absorb)
        };
}

/// History is never skipped: with the absorbing boundary, the older layer
/// after a tick is the previous layer as it stood after the tick before,
/// whatever forcing came in between.
pub proof fn lemma_history_kept<T, S1: Fn(&Cross<T>) -> T, S4: Fn(&WideCross<T>) -> T, B: Fn(
    T,
    T,
    T,
    T,
) -> T, D: Fn(T) -> T>(
    kind: StencilKind,
    after_last: Grid<T>,
    forced_grid: Grid<T>,
    after_next: Grid<T>,
    source_fired: bool,
    events: Seq<(usize, usize)>,
    amplitude: T,
    tau: Seq<T>,
    kappa: Seq<T>,
    rules: Rules<S1, S4, B, D>,
)
    requires
        forced(after_last, forced_grid, source_fired, events, amplitude),
        ticked(kind, true, forced_grid, after_next, tau, kappa, rules),
    ensures
        after_next.older@ == after_last.previous@,
{
    lemma_absorbing_tick_shifts_layers(kind, forced_grid, after_next, tau, kappa, rules);
}

/// Every cell of every layer of `g` holds `z`.
pub open spec fn all_cells<T>(g: Grid<T>, z: T) -> bool {
    forall|k: int, x: int, y: int|
        0 <= k < 3 && 0 <= x < g.dimx && 0 <= y < g.dimy ==> #[trigger] g.at(k, x, y) == z
}

/// Each rule maps a neighbourhood that holds only `z` (whatever its
/// coefficient) to `z`.
pub open spec fn rules_keep_rest<T, S1: Fn(&Cross<T>) -> T, S4: Fn(&WideCross<T>) -> T, B: Fn(
    T,
    T,
    T,
    T,
) -> T, D: Fn(T) -> T>(rules: Rules<S1, S4, B, D>, z: T) -> bool {
    &&& forall|c: Cross<T>, v: T|
        c.center == z && c.older == z && c.west == z && c.east == z && c.south == z && c.north
            == z && #[trigger] rules.compact.ensures((&c,), v) ==> v == z
    &&& forall|c: WideCross<T>, v: T|
        c.center == z && c.older == z && arm_rests(c.west, z) && arm_rests(c.east, z)
            && arm_rests(c.south, z) && arm_rests(c.north, z) && #[trigger] rules.wide.ensures(
            (&c,),
            v,
        ) ==> v == z
    &&& forall|k: T, v: T| #[trigger] rules.absorb.ensures((k, z, z, z), v) ==> v == z
    &&& forall|v: T| #[trigger] rules.damp.ensures((z,), v) ==> v == z
}

pub open spec fn arm_rests<T>(a: crate::stencil::Arm<T>, z: T) -> bool {
    a.d1 == z && a.d2 == z && a.d3 == z && a.d4 == z
}

/// The edge strips lie in the band outside the interior, and the inward
/// neighbour of each of their cells lies in the grid.
pub proof fn lemma_strip_in_band(dimx: int, dimy: int, m: int, side: int, x: int, y: int)
    requires
        1 <= m,
        dimx > 2 * m,
        dimy > 2 * m,
        0 <= side < 4,
        in_rect(strip(dimx, dimy, m, side), x, y),
    ensures
        0 <= x < dimx,
        0 <= y < dimy,
        !in_interior(dimx, dimy, m, x, y),
        0 <= x + inward(side).0 < dimx,
        0 <= y + inward(side).1 < dimy,
{
}

proof fn lemma_strip_keeps_rest<T, B: Fn(T, T, T, T) -> T>(
    before: Grid<T>,
    after: Grid<T>,
    kappa: Seq<T>,
    m: int,
    side: int,
    rule: B,
    z: T,
)
    requires
        1 <= m,
        before.dimx > 2 * m,
        before.dimy > 2 * m,
        0 <= side < 4,
        strip_applied(before, after, kappa, m, side, rule),
        all_cells(before, z),
        forall|k: T, v: T| #[trigger] rule.ensures((k, z, z, z), v) ==> v == z,
    ensures
        all_cells(after, z),
{
    let (dx, dy) = inward(side);
    assert forall|k: int, x: int, y: int|
        0 <= k < 3 && 0 <= x < after.dimx && 0 <= y < after.dimy implies #[trigger] after.at(
        k,
        x,
        y,
    ) == z by {
        if k == 0 {
            if in_rect(strip(before.dimx as int, before.dimy as int, m, side), x, y) {
                lemma_strip_in_band(before.dimx as int, before.dimy as int, m, side, x, y);
                assert(before.at(0, x + dx, y + dy) == z);
                assert(before.at(1, x, y) == z);
                assert(before.at(1, x + dx, y + dy) == z);
            } else {
                assert(before.at(0, x, y) == z);
            }
        } else {
            assert(before.at(k, x, y) == z);
        }
    }
}

/// Zero in, zero out: from a grid that holds `z` everywhere, a tick with no
/// point event and no source, whose rules map all-`z` neighbourhoods to `z`,
/// leaves `z` everywhere.  By induction this holds for any number of ticks.
pub proof fn lemma_rest_stays_at_rest<T, S1: Fn(&Cross<T>) -> T, S4: Fn(&WideCross<T>) -> T, B: Fn(
    T,
    T,
    T,
    T,
) -> T, D: Fn(T) -> T>(
    kind: StencilKind,
    absorbing: bool,
    before: Grid<T>,
    forced_grid: Grid<T>,
    after: Grid<T>,
    amplitude: T,
    tau: Seq<T>,
    kappa: Seq<T>,
    rules: Rules<S1, S4, B, D>,
    z: T,
)
    requires
        before.wf(),
        before.dimx > 2 * kind.spec_margin(),
        before.dimy > 2 * kind.spec_margin(),
        all_cells(before, z),
        forced(before, forced_grid, false, Seq::empty(), amplitude),
        ticked(kind, absorbing, forced_grid, after, tau, kappa, rules),
        rules_keep_rest(rules, z),
    ensures
        all_cells(after, z),
{
    let dimx = before.dimx as int;
    let dimy = before.dimy as int;
    let m = kind.spec_margin() as int;
    assert forall|k: int, x: int, y: int|
        0 <= k < 3 && 0 <= x < dimx && 0 <= y < dimy implies #[trigger] forced_grid.at(k, x, y)
        == z by {
        assert(!forced_at(dimx, dimy, false, Seq::<(usize, usize)>::empty(), x, y));
        assert(before.at(k, x, y) == z);
    }
    let r = rotated(forced_grid);
    assert forall|k: int, x: int, y: int|
        0 <= k < 3 && 0 <= x < dimx && 0 <= y < dimy implies #[trigger] r.at(k, x, y) == z by {
        if k == 0 {
            assert(forced_grid.at(2, x, y) == z);
        } else if k == 1 {
            assert(forced_grid.at(0, x, y) == z);
        } else {
            assert(forced_grid.at(1, x, y) == z);
        }
    }
    let s = choose|s: Grid<T>|
        {
            &&& stencil_swept(kind, r, s, tau, rules.compact, rules.wide)
            &&& if absorbing {
                absorbed(s, after, kappa, m, rules.absorb)
            } else {
                damped(s, after, rules.damp)
            }
        };
    assert forall|k: int, x: int, y: int|
        0 <= k < 3 && 0 <= x < dimx && 0 <= y < dimy implies #[trigger] s.at(k, x, y) == z by {
        if k == 0 {
            if in_interior(dimx, dimy, m, x, y) {
                assert(r.at(1, x, y) == z);
                assert(r.at(2, x, y) == z);
                assert(r.at(1, x - 1, y) == z);
                assert(r.at(1, x + 1, y) == z);
                assert(r.at(1, x, y - 1) == z);
                assert(r.at(1, x, y + 1) == z);
                if kind == StencilKind::Order4 {
                    assert(r.at(1, x - 2, y) == z);
                    assert(r.at(1, x + 2, y) == z);
                    assert(r.at(1, x, y - 2) == z);
                    assert(r.at(1, x, y + 2) == z);
                    assert(r.at(1, x - 3, y) == z);
                    assert(r.at(1, x + 3, y) == z);
                    assert(r.at(1, x, y - 3) == z);
                    assert(r.at(1, x, y + 3) == z);
                    assert(r.at(1, x - 4, y) == z);
                    assert(r.at(1, x + 4, y) == z);
                    assert(r.at(1, x, y - 4) == z);
                    assert(r.at(1, x, y + 4) == z);
                }
            } else {
                assert(r.at(0, x, y) == z);
            }
        } else {
            assert(r.at(k, x, y) == z);
        }
    }
    if absorbing {
        let (s1, s2, s3) = choose|s1: Grid<T>, s2: Grid<T>, s3: Grid<T>|
            {
                &&& strip_applied(s, s1, kappa, m, 0, rules.absorb)
                &&& strip_applied(s1, s2, kappa, m, 1, rules.absorb)
                &&& strip_applied(s2, s3, kappa, m, 2, rules.absorb)
                &&& strip_applied(s3, after, kappa, m, 3, rules.absorb)
            };
        lemma_strip_keeps_rest(s, s1, kappa, m, 0, rules.absorb, z);
        lemma_strip_keeps_rest(s1, s2, kappa, m, 1, rules.absorb, z);
        lemma_strip_keeps_rest(s2, s3, kappa, m, 2, rules.absorb, z);
        lemma_strip_keeps_rest(s3, after, kappa, m, 3, rules.absorb, z);
    } else {
        assert forall|k: int, x: int, y: int|
            0 <= k < 3 && 0 <= x < dimx && 0 <= y < dimy implies #[trigger] after.at(k, x, y)
            == z by {
            crate::grid::lemma_flat_in_range(dimx, dimy, x, y);
            let i = crate::grid::flat(dimy, x, y);
            assert(s.at(k, x, y) == z);
            assert(s.layer(k).len() == dimx * dimy);
            assert(rules.damp.ensures((s.layer(k)[i],), after.layer(k)[i]));
        }
    }
}

/// The compact neighbourhood in which only the arm `dir` (west, east, south,
/// north) holds `a` and every other neighbour and the center hold `z`.
pub open spec fn single_arm<T>(coef: T, older: T, z: T, a: T, dir: int) -> Cross<T> {
    Cross {
        coef,
        center: z,
        older,
        west: if dir == 0 {
            a
        } else {
            z
        },
        east: if dir == 1 {
            a
        } else {
            z
        },
        south: if dir == 2 {
            a
        } else {
            z
        },
        north: if dir == 3 {
            a
        } else {
            z
        },
    }
}

/// The rule does not care from which direction a lone neighbour value comes.
pub open spec fn isotropic<T, F: Fn(&Cross<T>) -> T>(rule: F, z: T) -> bool {
    forall|coef: T, older: T, a: T, d1: int, d2: int, v1: T, v2: T|
        0 <= d1 < 4 && 0 <= d2 < 4 && #[trigger] rule.ensures((&single_arm(coef, older, z, a, d1),), v1)
            && #[trigger] rule.ensures((&single_arm(coef, older, z, a, d2),), v2) ==> v1 == v2
}

/// A single impulse spreads evenly: when the previous layer holds `a` at
/// `(x0, y0)` and `z` everywhere else, one compact stencil sweep hands each
/// of the four orthogonal neighbours the same neighbourhood up to direction
/// (the impulse on the arm that points back at the source), so with an
/// isotropic rule and equal coefficients and older values the four receive
/// identical updates.
pub proof fn lemma_impulse_spreads_evenly<T, F: Fn(&Cross<T>) -> T>(
    before: Grid<T>,
    after: Grid<T>,
    tau: Seq<T>,
    rule: F,
    x0: int,
    y0: int,
    a: T,
    z: T,
)
    requires
        before.wf(),
        tau.len() == before.dimx * before.dimy,
        swept(
            before,
            after,
            1,
            |x: int, y: int| cross_at(before, tau, x, y),
            |c: Cross<T>, v: T| rule.ensures((&c,), v),
        ),
        2 <= x0 < before.dimx - 2,
        2 <= y0 < before.dimy - 2,
        before.at(1, x0, y0) == a,
        forall|x: int, y: int|
            0 <= x < before.dimx && 0 <= y < before.dimy && (x != x0 || y != y0) ==> #[trigger] before.at(
                1,
                x,
                y,
            ) == z,
        cell(tau, before.dimy as int, x0 + 1, y0) == cell(tau, before.dimy as int, x0 - 1, y0),
        cell(tau, before.dimy as int, x0, y0 + 1) == cell(tau, before.dimy as int, x0 - 1, y0),
        cell(tau, before.dimy as int, x0, y0 - 1) == cell(tau, before.dimy as int, x0 - 1, y0),
        before.at(2, x0 + 1, y0) == before.at(2, x0 - 1, y0),
        before.at(2, x0, y0 + 1) == before.at(2, x0 - 1, y0),
        before.at(2, x0, y0 - 1) == before.at(2, x0 - 1, y0),
        isotropic(rule, z),
    ensures
        rule.ensures(
            (&single_arm(cell(tau, before.dimy as int, x0 - 1, y0), before.at(2, x0 - 1, y0), z, a, 0),),
            after.at(0, x0 + 1, y0),
        ),
        after.at(0, x0 - 1, y0) == after.at(0, x0 + 1, y0),
        after.at(0, x0, y0 - 1) == after.at(0, x0 + 1, y0),
        after.at(0, x0, y0 + 1) == after.at(0, x0 + 1, y0),
{
    let c = cell(tau, before.dimy as int, x0 - 1, y0);
    let o = before.at(2, x0 - 1, y0);
    assert(before.at(1, x0 + 2, y0) == z);
    assert(before.at(1, x0 - 2, y0) == z);
    assert(before.at(1, x0, y0 + 2) == z);
    assert(before.at(1, x0, y0 - 2) == z);
    assert(before.at(1, x0 + 1, y0 + 1) == z);
    assert(before.at(1, x0 + 1, y0 - 1) == z);
    assert(before.at(1, x0 - 1, y0 + 1) == z);
    assert(before.at(1, x0 - 1, y0 - 1) == z);
    assert(before.at(1, x0 + 1, y0) == z);
    assert(before.at(1, x0 - 1, y0) == z);
    assert(before.at(1, x0, y0 + 1) == z);
    assert(before.at(1, x0, y0 - 1) == z);
    let ve = after.at(0, x0 + 1, y0);
    let vw = after.at(0, x0 - 1, y0);
    let vn = after.at(0, x0, y0 + 1);
    let vs = after.at(0, x0, y0 - 1);
    assert(cross_at(before, tau, x0 + 1, y0) == single_arm(c, o, z, a, 0));
    assert(cross_at(before, tau, x0 - 1, y0) == single_arm(c, o, z, a, 1));
    assert(cross_at(before, tau, x0, y0 + 1) == single_arm(c, o, z, a, 2));
    assert(cross_at(before, tau, x0, y0 - 1) == single_arm(c, o, z, a, 3));
    assert(rule.ensures((&single_arm(c, o, z, a, 0),), ve));
    assert(rule.ensures((&single_arm(c, o, z, a, 1),), vw));
    assert(rule.ensures((&single_arm(c, o, z, a, 2),), vn));
    assert(rule.ensures((&single_arm(c, o, z, a, 3),), vs));
}

/// The stencil writes only the interior: after a sweep, every cell of the
/// band of width `margin` holds in every layer what it held before.
pub proof fn lemma_stencil_writes_only_interior<T, S1: Fn(&Cross<T>) -> T, S4: Fn(
    &WideCross<T>,
) -> T>(kind: StencilKind, before: Grid<T>, after: Grid<T>, tau: Seq<T>, compact: S1, wide: S4)
    requires
        stencil_swept(kind, before, after, tau, compact, wide),
    ensures
        forall|k: int, x: int, y: int|
            0 <= k < 3 && 0 <= x < before.dimx && 0 <= y < before.dimy && !in_interior(
                before.dimx as int,
                before.dimy as int,
                kind.spec_margin() as int,
                x,
                y,
            ) ==> #[trigger] after.at(k, x, y) == before.at(k, x, y),
{
}

/// The stencil reads only inside the grid: every neighbour of an interior
/// cell up to the margin lies in the grid.
pub proof fn lemma_stencil_reads_inside(dimx: int, dimy: int, m: int, x: int, y: int, d: int)
    requires
        in_interior(dimx, dimy, m, x, y),
        0 <= d <= m,
    ensures
        0 <= x - d && x + d < dimx,
        0 <= y - d && y + d < dimy,
{
}

} // verus!
