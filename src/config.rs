use vstd::prelude::*;

verus! {

/// The spatial stencil, fixed by the width of the boundary band.
#[derive(Clone, Copy, Debug, PartialEq, Eq, Structural)]
pub enum StencilKind {
    /// Compact five-point stencil, band width one.
    Order1,
    /// Wide stencil with four neighbours on each side, band width four.
    Order4,
}

impl StencilKind {
    pub open spec fn spec_margin(self) -> nat {
        match self {
            StencilKind::Order1 => 1,
            StencilKind::Order4 => 4,
        }
    }

    /// The stencil whose half-width is `margin`, if one is supported.
    pub fn from_margin(margin: usize) -> (r: Option<StencilKind>)
        ensures
            r is Some <==> (margin == 1 || margin == 4),
            r matches Some(k) ==> k.spec_margin() == margin,
    {
        if margin == 1 {
            Some(StencilKind::Order1)
        } else if margin == 4 {
            Some(StencilKind::Order4)
        } else {
            None
        }
    }

    /// Width of the band of cells that the stencil leaves to the boundary rule.
    pub fn margin(&self) -> (m: usize)
        ensures
            m == self.spec_margin(),
    {
        match self {
            StencilKind::Order1 => 1,
            StencilKind::Order4 => 4,
        }
    }
}

/// Why a configuration cannot be simulated.
#[derive(Clone, Copy, Debug, PartialEq, Eq, Structural)]
pub enum ConfigError {
    /// The spatial step is zero or negative.
    NonPositiveSpatialStep,
    /// No stencil has the requested margin.
    UnsupportedMargin,
    /// An axis has no more than twice the margin cells, leaving no interior.
    GridTooSmall,
}

/// The validated shape of a simulation: grid size and stencil.
#[derive(Clone, Copy, Debug, PartialEq, Eq, Structural)]
pub struct GridShape {
    pub dimx: usize,
    pub dimy: usize,
    pub kind: StencilKind,
}

impl GridShape {
    /// The shape admits an interior on both axes and its cells can be counted.
    pub open spec fn wf(self) -> bool {
        &&& self.dimx > 2 * self.kind.spec_margin()
        &&& self.dimy > 2 * self.kind.spec_margin()
        &&& self.dimx * self.dimy <= usize::MAX
    }

    pub open spec fn margin_of(self) -> nat {
        self.kind.spec_margin()
    }

    /// Checks a configuration before anything is allocated.  The spatial
    /// step is checked first, then the margin, then the grid size.
    pub fn new(dimx: usize, dimy: usize, margin: usize, spatial_step_positive: bool) -> (r: Result<
        GridShape,
        ConfigError,
    >)
        ensures
            !spatial_step_positive ==> r == Err::<GridShape, ConfigError>(
                ConfigError::NonPositiveSpatialStep,
            ),
            spatial_step_positive && margin != 1 && margin != 4 ==> r == Err::<
                GridShape,
                ConfigError,
            >(ConfigError::UnsupportedMargin),
            spatial_step_positive && (margin == 1 || margin == 4) && (dimx <= 2 * margin || dimy
                <= 2 * margin || dimx * dimy > usize::MAX) ==> r == Err::<GridShape, ConfigError>(
                ConfigError::GridTooSmall,
            ),
            r is Ok <==> spatial_step_positive && (margin == 1 || margin == 4) && dimx > 2 * margin
                && dimy > 2 * margin && dimx * dimy <= usize::MAX,
            r matches Ok(s) ==> s.wf() && s.dimx == dimx && s.dimy == dimy && s.margin_of()
                == margin,
    {
        if !spatial_step_positive {
            return Err(ConfigError::NonPositiveSpatialStep);
        }
        let kind = match StencilKind::from_margin(margin) {
            Some(k) => k,
            None => {
                return Err(ConfigError::UnsupportedMargin);
            },
        };
        if dimx <= 2 * margin || dimy <= 2 * margin {
            return Err(ConfigError::GridTooSmall);
        }
        if dimx.checked_mul(dimy).is_none() {
            return Err(ConfigError::GridTooSmall);
        }
        Ok(GridShape { dimx, dimy, kind })
    }

    /// Number of cells in one layer.
    pub fn cell_count(&self) -> (n: usize)
        requires
            self.wf(),
        ensures
            n == self.dimx * self.dimy,
    {
        self.dimx * self.dimy
    }

    pub fn margin(&self) -> (m: usize)
        ensures
            m == self.margin_of(),
    {
        self.kind.margin()
    }
}

} // verus!
