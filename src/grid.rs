use vstd::prelude::*;

verus! {

/// Position of cell `(x, y)` in a layer stored row by row along `x`.
pub open spec fn flat(dimy: int, x: int, y: int) -> int {
    x * dimy + y
}

/// The value of cell `(x, y)` in a layer.
pub open spec fn cell<T>(layer: Seq<T>, dimy: int, x: int, y: int) -> T {
    layer[flat(dimy, x, y)]
}

/// A cell inside a `dimx` by `dimy` grid lies inside its storage.
pub proof fn lemma_flat_in_range(dimx: int, dimy: int, x: int, y: int)
    requires
        0 <= x < dimx,
        0 <= y < dimy,
    ensures
        0 <= flat(dimy, x, y) < dimx * dimy,
{
    assert(x * dimy + y < dimx * dimy) by (nonlinear_arith)
        requires
            0 <= x < dimx,
            0 <= y < dimy,
    ;
    assert(0 <= x * dimy) by (nonlinear_arith)
        requires
            0 <= x,
            0 <= y < dimy,
    ;
}

/// Distinct cells have distinct positions.
pub proof fn lemma_flat_injective(dimy: int, x1: int, y1: int, x2: int, y2: int)
    requires
        0 <= y1 < dimy,
        0 <= y2 < dimy,
        flat(dimy, x1, y1) == flat(dimy, x2, y2),
    ensures
        x1 == x2,
        y1 == y2,
{
    if x1 < x2 {
        assert(x1 * dimy + dimy <= x2 * dimy) by (nonlinear_arith)
            requires
                x1 < x2,
                0 < dimy,
        ;
    } else if x2 < x1 {
        assert(x2 * dimy + dimy <= x1 * dimy) by (nonlinear_arith)
            requires
                x2 < x1,
                0 < dimy,
        ;
    }
}

/// Writing one cell of a layer leaves every other cell as it was.
pub proof fn lemma_write_cell<T>(s: Seq<T>, dimx: int, dimy: int, x: int, y: int, v: T)
    requires
        s.len() == dimx * dimy,
        0 <= x < dimx,
        0 <= y < dimy,
    ensures
        forall|x2: int, y2: int|
            0 <= x2 < dimx && 0 <= y2 < dimy ==> #[trigger] cell(
                s.update(flat(dimy, x, y), v),
                dimy,
                x2,
                y2,
            ) == if x2 == x && y2 == y {
                v
            } else {
                cell(s, dimy, x2, y2)
            },
{
    lemma_flat_in_range(dimx, dimy, x, y);
    assert forall|x2: int, y2: int| 0 <= x2 < dimx && 0 <= y2 < dimy implies #[trigger] cell(
        s.update(flat(dimy, x, y), v),
        dimy,
        x2,
        y2,
    ) == if x2 == x && y2 == y {
        v
    } else {
        cell(s, dimy, x2, y2)
    } by {
        lemma_flat_in_range(dimx, dimy, x2, y2);
        if flat(dimy, x, y) == flat(dimy, x2, y2) {
            lemma_flat_injective(dimy, x, y, x2, y2);
        }
    }
}

/// Three time layers of a two-dimensional field: `current` is the step being
/// computed, `previous` the step before it, `older` the one before that.
pub struct Grid<T> {
    pub dimx: usize,
    pub dimy: usize,
    pub current: Vec<T>,
    pub previous: Vec<T>,
    pub older: Vec<T>,
}

impl<T> Grid<T> {
    /// Every layer holds one value per cell.
    pub open spec fn wf(&self) -> bool {
        &&& self.dimx * self.dimy <= usize::MAX
        &&& self.current@.len() == self.dimx * self.dimy
        &&& self.previous@.len() == self.dimx * self.dimy
        &&& self.older@.len() == self.dimx * self.dimy
    }

    /// Layer `k` (0 current, 1 previous, 2 older).
    pub open spec fn layer(&self, k: int) -> Seq<T> {
        if k == 0 {
            self.current@
        } else if k == 1 {
            self.previous@
        } else {
            self.older@
        }
    }

    pub open spec fn at(&self, k: int, x: int, y: int) -> T {
        cell(self.layer(k), self.dimy as int, x, y)
    }

}

impl<T: Copy> Grid<T> {
    /// A grid whose three layers hold `fill` in every cell.
    pub fn new(dimx: usize, dimy: usize, fill: T) -> (g: Grid<T>)
        requires
            dimx * dimy <= usize::MAX,
        ensures
            g.wf(),
            g.dimx == dimx,
            g.dimy == dimy,
            forall|k: int, i: int|
                0 <= k < 3 && 0 <= i < dimx * dimy ==> #[trigger] g.layer(k)[i] == fill,
    {
        let n = dimx * dimy;
        let layer = filled(n, fill);
        let current = filled(n, fill);
        let previous = filled(n, fill);
        Grid { dimx, dimy, current, previous, older: layer }
    }

    /// Moves each layer one step back in time: `older` takes `previous`,
    /// `previous` takes `current`, and `current` is left holding what `older`
    /// held, as scratch to be overwritten.
    pub fn rotate(&mut self)
        ensures
            final(self).dimx == old(self).dimx,
            final(self).dimy == old(self).dimy,
            final(self).older == old(self).previous,
            final(self).previous == old(self).current,
            final(self).current == old(self).older,
    {
        std::mem::swap(&mut self.older, &mut self.previous);
        std::mem::swap(&mut self.previous, &mut self.current);
    }

    /// Position of cell `(x, y)` in a layer.
    pub fn index(&self, x: usize, y: usize) -> (i: usize)
        requires
            self.dimx * self.dimy <= usize::MAX,
            x < self.dimx,
            y < self.dimy,
        ensures
            i == flat(self.dimy as int, x as int, y as int),
            i < self.dimx * self.dimy,
    {
        proof {
            lemma_flat_in_range(self.dimx as int, self.dimy as int, x as int, y as int);
        }
        x * self.dimy + y
    }

    /// The value of cell `(x, y)` in layer `k`.
    pub fn get(&self, k: usize, x: usize, y: usize) -> (v: T)
        requires
            self.wf(),
            k < 3,
            x < self.dimx,
            y < self.dimy,
        ensures
            v == self.at(k as int, x as int, y as int),
    {
        let i = self.index(x, y);
        if k == 0 {
            self.current[i]
        } else if k == 1 {
            self.previous[i]
        } else {
            self.older[i]
        }
    }

    /// Overwrites cell `(x, y)` of the current layer.
    pub fn set(&mut self, x: usize, y: usize, v: T)
        requires
            old(self).wf(),
            x < old(self).dimx,
            y < old(self).dimy,
        ensures
            final(self).wf(),
            final(self).dimx == old(self).dimx,
            final(self).dimy == old(self).dimy,
            final(self).previous@ == old(self).previous@,
            final(self).older@ == old(self).older@,
            final(self).current@ == old(self).current@.update(
                flat(old(self).dimy as int, x as int, y as int),
                v,
            ),
            forall|x2: int, y2: int|
                0 <= x2 < old(self).dimx && 0 <= y2 < old(self).dimy ==> #[trigger] final(self).at(
                    0,
                    x2,
                    y2,
                ) == if x2 == x && y2 == y {
                    v
                } else {
                    old(self).at(0, x2, y2)
                },
    {
        proof {
            lemma_write_cell(self.current@, self.dimx as int, self.dimy as int, x as int, y as int, v);
        }
        let i = self.index(x, y);
        self.current.set(i, v);
    }

    /// The current layer, for presentation.
    pub fn current(&self) -> (r: &Vec<T>)
        ensures
            r@ == self.current@,
    {
        &self.current
    }
}

/// A vector of `n` copies of `fill`.
pub fn filled<T: Copy>(n: usize, fill: T) -> (v: Vec<T>)
    ensures
        v@.len() == n,
        forall|i: int| 0 <= i < n ==> #[trigger] v@[i] == fill,
{
    let mut v: Vec<T> = Vec::with_capacity(n);
    let mut i: usize = 0;
    while i < n
        invariant
            i <= n,
            v@.len() == i,
            forall|j: int| 0 <= j < i ==> #[trigger] v@[j] == fill,
        decreases n - i,
    {
        v.push(fill);
        i = i + 1;
    }
    v
}

} // verus!
