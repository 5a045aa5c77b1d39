use vstd::prelude::*;

use crate::boundary::{absorbed, update_with_absorbing_boundary};
use crate::config::{GridShape, StencilKind};
use crate::forcing::{apply_force, forced_at};
use crate::grid::{filled, Grid};
use crate::stencil::{
    cross_at, swept, update_with_laplace_operator_1, update_with_laplace_operator_4,
    wide_cross_at, Cross, WideCross,
};

verus! {

/// The per-cell arithmetic of a tick: the compact and the wide stencil
/// update, the absorbing-boundary update `(Kappa, current_inward,
/// previous_self, previous_inward) ↦ value`, and the damping applied to
/// every cell when the boundary does not absorb.
pub struct Rules<S1, S4, B, D> {
    pub compact: S1,
    pub wide: S4,
    pub absorb: B,
    pub damp: D,
}

/// Each rule accepts every input.
pub open spec fn rules_total<T, S1: Fn(&Cross<T>) -> T, S4: Fn(&WideCross<T>) -> T, B: Fn(
    T,
    T,
    T,
    T,
) -> T, D: Fn(T) -> T>(rules: Rules<S1, S4, B, D>) -> bool {
    &&& forall|c: Cross<T>| rules.compact.requires((&c,))
    &&& forall|c: WideCross<T>| rules.wide.requires((&c,))
    &&& forall|a: T, b: T, c: T, d: T| rules.absorb.requires((a, b, c, d))
    &&& forall|a: T| rules.damp.requires((a,))
}

/// The grid after the layers have moved one step back in time.
pub open spec fn rotated<T>(g: Grid<T>) -> Grid<T> {
    Grid { dimx: g.dimx, dimy: g.dimy, current: g.older, previous: g.current, older: g.previous }
}

/// The stencil of `kind` swept over the interior of `before`.
pub open spec fn stencil_swept<T, S1: Fn(&Cross<T>) -> T, S4: Fn(&WideCross<T>) -> T>(
    kind: StencilKind,
    before: Grid<T>,
    after: Grid<T>,
    tau: Seq<T>,
    compact: S1,
    wide: S4,
) -> bool {
    match kind {
        StencilKind::Order1 => swept(
            before,
            after,
            1,
            |x: int, y: int| cross_at(before, tau, x, y),
            |c: Cross<T>, v: T| compact.ensures((&c,), v),
        ),
        StencilKind::Order4 => swept(
            before,
            after,
            4,
            |x: int, y: int| wide_cross_at(before, tau, x, y),
            |c: WideCross<T>, v: T| wide.ensures((&c,), v),
        ),
    }
}

/// Every cell of every layer of `after` is what `rule` makes of the same cell
/// of `before`.
pub open spec fn damped<T, D: Fn(T) -> T>(before: Grid<T>, after: Grid<T>, rule: D) -> bool {
    &&& after.dimx == before.dimx
    &&& after.dimy == before.dimy
    &&& forall|k: int|
        0 <= k < 3 ==> (#[trigger] after.layer(k)).len() == before.layer(k).len()
    &&& forall|k: int, i: int|
        0 <= k < 3 && 0 <= i < before.layer(k).len() ==> rule.ensures(
            (before.layer(k)[i],),
            #[trigger] after.layer(k)[i],
        )
}

/// One tick from `before` to `after`: the layers rotate, the stencil of
/// `kind` fills the interior of the current layer, then the boundary strips
/// are absorbed or the whole grid is damped.
pub open spec fn ticked<T, S1: Fn(&Cross<T>) -> T, S4: Fn(&WideCross<T>) -> T, B: Fn(
    T,
    T,
    T,
    T,
) -> T, D: Fn(T) -> T>(
    kind: StencilKind,
    absorbing: bool,
    before: Grid<T>,
    after: Grid<T>,
    tau: Seq<T>,
    kappa: Seq<T>,
    rules: Rules<S1, S4, B, D>,
) -> bool {
    exists|s: Grid<T>|
        {
            &&& stencil_swept(kind, rotated(before), s, tau, rules.compact, rules.wide)
            &&& if absorbing {
                absorbed(s, after, kappa, kind.spec_margin() as int, rules.absorb)
            } else {
                damped(s, after, rules.damp)
            }
        }
}

fn damp_layer<T: Copy, D: Fn(T) -> T>(v: &mut Vec<T>, rule: &D)
    requires
        forall|a: T| rule.requires((a,)),
    ensures
        final(v)@.len() == old(v)@.len(),
        forall|i: int|
            0 <= i < old(v)@.len() ==> rule.ensures((old(v)@[i],), #[trigger] final(v)@[i]),
{
    let ghost v0 = v@;
    let mut i: usize = 0;
    while i < v.len()
        invariant
            i <= v@.len(),
            v@.len() == v0.len(),
            forall|a: T| rule.requires((a,)),
            forall|j: int| 0 <= j < i ==> rule.ensures((v0[j],), #[trigger] v@[j]),
            forall|j: int| i <= j < v@.len() ==> #[trigger] v@[j] == v0[j],
        decreases v@.len() - i,
    {
        let a = v[i];
        let b = rule(a);
        v.set(i, b);
        i = i + 1;
    }
}

/// Applies `rule` to every cell of all three layers.
pub fn damp_grid<T: Copy, D: Fn(T) -> T>(grid: &mut Grid<T>, rule: &D)
    requires
        old(grid).wf(),
        forall|a: T| rule.requires((a,)),
    ensures
        final(grid).wf(),
        damped(*old(grid), *final(grid), *rule),
{
    damp_layer(&mut grid.current, rule);
    damp_layer(&mut grid.previous, rule);
    damp_layer(&mut grid.older, rule);
    assert(forall|k: int| 0 <= k < 3 ==> grid.layer(k).len() == old(grid).layer(k).len());
}

/// One tick of the solver on `grid`, after forcing: rotate the layers,
/// update the interior with the stencil of `kind`, then absorb at the
/// boundary strips or damp the whole grid.
pub fn tick<T: Copy, S1: Fn(&Cross<T>) -> T, S4: Fn(&WideCross<T>) -> T, B: Fn(
    T,
    T,
    T,
    T,
) -> T, D: Fn(T) -> T>(
    grid: &mut Grid<T>,
    kind: StencilKind,
    absorbing: bool,
    tau: &Vec<T>,
    kappa: &Vec<T>,
    rules: &Rules<S1, S4, B, D>,
)
    requires
        old(grid).wf(),
        old(grid).dimx > 2 * kind.spec_margin(),
        old(grid).dimy > 2 * kind.spec_margin(),
        tau@.len() == old(grid).dimx * old(grid).dimy,
        kappa@.len() == old(grid).dimx * old(grid).dimy,
        rules_total::<T, S1, S4, B, D>(*rules),
    ensures
        final(grid).wf(),
        final(grid).dimx == old(grid).dimx,
        final(grid).dimy == old(grid).dimy,
        ticked(kind, absorbing, *old(grid), *final(grid), tau@, kappa@, *rules),
        absorbing ==> final(grid).previous@ == old(grid).current@,
        absorbing ==> final(grid).older@ == old(grid).previous@,
{
    let ghost g0 = *grid;
    grid.rotate();
    assert(*grid == rotated(g0));
    match kind {
        StencilKind::Order1 => update_with_laplace_operator_1(grid, tau, &rules.compact),
        StencilKind::Order4 => update_with_laplace_operator_4(grid, tau, &rules.wide),
    }
    let ghost s = *grid;
    assert(stencil_swept(kind, rotated(g0), s, tau@, rules.compact, rules.wide));
    if absorbing {
        update_with_absorbing_boundary(grid, kappa, kind.margin(), &rules.absorb);
    } else {
        damp_grid(grid, &rules.damp);
    }
}

/// A command from the control panel.
#[derive(Clone, Copy, Debug, PartialEq, Eq, Structural)]
pub enum Command {
    /// Schedule ticks, with the periodic source on if its frequency is
    /// positive.
    Start,
    /// Stop scheduling ticks and silence the periodic source.
    Stop,
    /// Zero the grid and drop pending point events.
    Reset,
}

/// The whole solver state: shape, coefficient fields, grid, pending point
/// events and whether ticks and the periodic source are on.
pub struct Solver<T> {
    pub shape: GridShape,
    pub absorbing: bool,
    pub zero: T,
    pub grid: Grid<T>,
    pub tau: Vec<T>,
    pub kappa: Vec<T>,
    pub pending: Vec<(usize, usize)>,
    pub running: bool,
    pub source_active: bool,
}

impl<T> Solver<T> {
    pub open spec fn wf(&self) -> bool {
        &&& self.shape.wf()
        &&& self.grid.wf()
        &&& self.grid.dimx == self.shape.dimx
        &&& self.grid.dimy == self.shape.dimy
        &&& self.tau@.len() == self.shape.dimx * self.shape.dimy
        &&& self.kappa@.len() == self.shape.dimx * self.shape.dimy
    }

    /// Every cell of every layer holds `zero`.
    pub open spec fn at_rest(&self) -> bool {
        forall|k: int, i: int|
            0 <= k < 3 && 0 <= i < self.grid.layer(k).len() ==> #[trigger] self.grid.layer(
                k,
            )[i] == self.zero
    }
}

impl<T: Copy> Solver<T> {
    /// A solver at rest, with uniform coefficient fields `tau` (the squared
    /// Courant number) and `kappa` (the Courant number), ticking, with the
    /// periodic source off.
    pub fn new(shape: GridShape, absorbing: bool, zero: T, tau: T, kappa: T) -> (s: Solver<T>)
        requires
            shape.wf(),
        ensures
            s.wf(),
            s.shape == shape,
            s.absorbing == absorbing,
            s.zero == zero,
            s.at_rest(),
            forall|i: int| 0 <= i < s.tau@.len() ==> #[trigger] s.tau@[i] == tau,
            forall|i: int| 0 <= i < s.kappa@.len() ==> #[trigger] s.kappa@[i] == kappa,
            s.pending@.len() == 0,
            s.running,
            !s.source_active,
    {
        let n = shape.cell_count();
        let grid = Grid::new(shape.dimx, shape.dimy, zero);
        Solver {
            shape,
            absorbing,
            zero,
            grid,
            tau: filled(n, tau),
            kappa: filled(n, kappa),
            pending: Vec::new(),
            running: true,
            source_active: false,
        }
    }

    /// Queues a point event at the rounded grid coordinates `(x, y)`.
    pub fn push_event(&mut self, x: usize, y: usize)
        ensures
            final(self).pending@ == old(self).pending@.push((x, y)),
            final(self).grid == old(self).grid,
            final(self).shape == old(self).shape,
            final(self).tau == old(self).tau,
            final(self).kappa == old(self).kappa,
            final(self).absorbing == old(self).absorbing,
            final(self).zero == old(self).zero,
            final(self).running == old(self).running,
            final(self).source_active == old(self).source_active,
    {
        self.pending.push((x, y));
    }

    /// Zeroes all three layers and drops pending point events.
    pub fn reset(&mut self)
        requires
            old(self).wf(),
        ensures
            final(self).wf(),
            final(self).at_rest(),
            final(self).pending@.len() == 0,
            final(self).shape == old(self).shape,
            final(self).tau == old(self).tau,
            final(self).kappa == old(self).kappa,
            final(self).absorbing == old(self).absorbing,
            final(self).zero == old(self).zero,
            final(self).running == old(self).running,
            final(self).source_active == old(self).source_active,
    {
        self.grid = Grid::new(self.shape.dimx, self.shape.dimy, self.zero);
        self.pending = Vec::new();
    }

    /// Acts on a command.  `Start` turns ticks on and the periodic source on
    /// exactly when its frequency is positive; `Stop` turns both off; `Reset`
    /// zeroes the grid and the queue and leaves the rest as it was.
    pub fn command(&mut self, cmd: Command, frequency_positive: bool)
        requires
            old(self).wf(),
        ensures
            final(self).wf(),
            final(self).shape == old(self).shape,
            final(self).tau == old(self).tau,
            final(self).kappa == old(self).kappa,
            final(self).absorbing == old(self).absorbing,
            final(self).zero == old(self).zero,
            cmd == Command::Start ==> final(self).running && final(self).source_active
                == frequency_positive && final(self).grid == old(self).grid
                && final(self).pending == old(self).pending,
            cmd == Command::Stop ==> !final(self).running && !final(self).source_active
                && final(self).grid == old(self).grid && final(self).pending == old(
                self,
            ).pending,
            cmd == Command::Reset ==> final(self).at_rest() && final(self).pending@.len() == 0
                && final(self).running == old(self).running && final(self).source_active == old(
                self,
            ).source_active,
    {
        match cmd {
            Command::Start => {
                self.running = true;
                self.source_active = frequency_positive;
            },
            Command::Stop => {
                self.running = false;
                self.source_active = false;
            },
            Command::Reset => {
                self.reset();
            },
        }
    }

    /// One scheduled tick.  When ticks are off nothing changes and `false`
    /// comes back.  Otherwise the pending point events and, if the periodic
    /// source is on and its timer `source_fired`, the source set their cells
    /// of the current layer to `amplitude`; the queue is emptied; the grid
    /// takes one tick; and `true` comes back.
    pub fn advance<S1: Fn(&Cross<T>) -> T, S4: Fn(&WideCross<T>) -> T, B: Fn(T, T, T, T) -> T, D: Fn(
        T,
    ) -> T>(&mut self, source_fired: bool, amplitude: T, rules: &Rules<S1, S4, B, D>) -> (r: bool)
        requires
            old(self).wf(),
            rules_total::<T, S1, S4, B, D>(*rules),
        ensures
            final(self).wf(),
            r == old(self).running,
            final(self).shape == old(self).shape,
            final(self).tau == old(self).tau,
            final(self).kappa == old(self).kappa,
            final(self).absorbing == old(self).absorbing,
            final(self).zero == old(self).zero,
            final(self).running == old(self).running,
            final(self).source_active == old(self).source_active,
            !r ==> final(self).grid == old(self).grid && final(self).pending == old(self).pending,
            r ==> final(self).pending@.len() == 0,
            r && old(self).absorbing ==> final(self).grid.older@ == old(self).grid.previous@,
            r ==> exists|f: Grid<T>|
                {
                    &&& forced(
                        old(self).grid,
                        f,
                        source_fired && old(self).source_active,
                        old(self).pending@,
                        amplitude,
                    )
                    &&& ticked(
                        old(self).shape.kind,
                        old(self).absorbing,
                        f,
                        final(self).grid,
                        old(self).tau@,
                        old(self).kappa@,
                        *rules,
                    )
                },
    {
        if !self.running {
            return false;
        }
        let ghost g0 = self.grid;
        let ghost fired = source_fired && self.source_active;
        apply_force(&mut self.grid, source_fired && self.source_active, &self.pending, amplitude);
        let ghost f = self.grid;
        assert(forced(g0, f, fired, old(self).pending@, amplitude));
        self.pending = Vec::new();
        tick(
            &mut self.grid,
            self.shape.kind,
            self.absorbing,
            &self.tau,
            &self.kappa,
            rules,
        );
        assert(ticked(
            old(self).shape.kind,
            old(self).absorbing,
            f,
            self.grid,
            old(self).tau@,
            old(self).kappa@,
            *rules,
        ));
        true
    }
}

/// The forcing of one tick, from `before` to `after`: the hit cells of the
/// current layer hold `amplitude`, every other cell is untouched.
pub open spec fn forced<T>(
    before: Grid<T>,
    after: Grid<T>,
    source_fired: bool,
    events: Seq<(usize, usize)>,
    amplitude: T,
) -> bool {
    &&& after.dimx == before.dimx
    &&& after.dimy == before.dimy
    &&& after.previous@ == before.previous@
    &&& after.older@ == before.older@
    &&& after.current@.len() == before.current@.len()
    &&& forall|x: int, y: int|
        0 <= x < before.dimx && 0 <= y < before.dimy ==> #[trigger] after.at(0, x, y) == if forced_at(
            before.dimx as int,
            before.dimy as int,
            source_fired,
            events,
            x,
            y,
        ) {
            amplitude
        } else {
            before.at(0, x, y)
        }
}

} // verus!
