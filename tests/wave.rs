use wave_sim::{
    apply_force, damp_grid, source_cell, tick, update_with_absorbing_boundary,
    update_with_laplace_operator_1, update_with_laplace_operator_4, Command, ConfigError, Cross,
    Grid, GridShape, Rules, Solver, StencilKind, WideCross,
};

fn compact_wave(c: &Cross<f32>) -> f32 {
    let laplace = -4.0 * c.center + c.west + c.east + c.south + c.north;
    laplace * c.coef + (2.0 * c.center - c.older)
}

fn wide_weight(d: usize) -> f32 {
    let k = StencilKind::Order4;
    k.arm_weight(d) as f32 / k.denominator() as f32
}

fn wide_wave(c: &WideCross<f32>) -> f32 {
    let k = StencilKind::Order4;
    let mut laplace = k.center_weight() as f32 / k.denominator() as f32 * c.center;
    for (d, pick) in [(1usize, 0usize), (2, 1), (3, 2), (4, 3)] {
        let arm = |a: &wave_sim::Arm<f32>| [a.d1, a.d2, a.d3, a.d4][pick];
        laplace = laplace
            + wide_weight(d) * (arm(&c.west) + arm(&c.east) + arm(&c.south) + arm(&c.north));
    }
    laplace * c.coef + (2.0 * c.center - c.older)
}

fn mur(kappa: f32, current_inward: f32, previous_self: f32, previous_inward: f32) -> f32 {
    (kappa - 1.0) / (kappa + 1.0) * (current_inward - previous_self) + previous_inward
}

fn damp(v: f32) -> f32 {
    v * 0.995
}

fn wave_rules() -> Rules<
    fn(&Cross<f32>) -> f32,
    fn(&WideCross<f32>) -> f32,
    fn(f32, f32, f32, f32) -> f32,
    fn(f32) -> f32,
> {
    Rules {
        compact: compact_wave as fn(&Cross<f32>) -> f32,
        wide: wide_wave as fn(&WideCross<f32>) -> f32,
        absorb: mur as fn(f32, f32, f32, f32) -> f32,
        damp: damp as fn(f32) -> f32,
    }
}

fn at(g: &Grid<f32>, k: usize, x: usize, y: usize) -> f32 {
    g.get(k, x, y)
}

#[test]
fn config_accepts_supported_shapes() {
    let s = GridShape::new(16, 16, 1, true).unwrap();
    assert_eq!(s.kind, StencilKind::Order1);
    assert_eq!(s.margin(), 1);
    assert_eq!(s.cell_count(), 256);
    let w = GridShape::new(9, 12, 4, true).unwrap();
    assert_eq!(w.kind, StencilKind::Order4);
    assert_eq!(w.margin(), 4);
}

#[test]
fn config_rejects_non_positive_step() {
    assert_eq!(GridShape::new(16, 16, 1, false), Err(ConfigError::NonPositiveSpatialStep));
    assert_eq!(GridShape::new(2, 2, 3, false), Err(ConfigError::NonPositiveSpatialStep));
}

#[test]
fn config_rejects_unsupported_margin() {
    assert_eq!(GridShape::new(16, 16, 2, true), Err(ConfigError::UnsupportedMargin));
    assert_eq!(GridShape::new(16, 16, 0, true), Err(ConfigError::UnsupportedMargin));
    assert_eq!(StencilKind::from_margin(3), None);
    assert_eq!(StencilKind::from_margin(4), Some(StencilKind::Order4));
}

#[test]
fn config_rejects_grid_without_interior() {
    assert_eq!(GridShape::new(2, 16, 1, true), Err(ConfigError::GridTooSmall));
    assert_eq!(GridShape::new(16, 8, 4, true), Err(ConfigError::GridTooSmall));
    assert!(GridShape::new(3, 3, 1, true).is_ok());
    assert_eq!(GridShape::new(usize::MAX, 4, 1, true), Err(ConfigError::GridTooSmall));
}

#[test]
fn wide_weights_balance_and_match_fractions() {
    let k = StencilKind::Order4;
    let arms: i64 = (1..=4).map(|d| k.arm_weight(d)).sum();
    assert_eq!(4 * arms + k.center_weight(), 0);
    assert_eq!(k.arm_weight(1) * 5, 8 * k.denominator());
    assert_eq!(k.arm_weight(3) * 315, 8 * k.denominator());
    assert_eq!(k.arm_weight(4) * 560, -k.denominator());
    assert_eq!(k.center_weight() * 72, -410 * k.denominator());
    let c = StencilKind::Order1;
    assert_eq!(4 * c.arm_weight(1) + c.center_weight(), 0);
    assert_eq!(c.arm_weight(2), 0);
}

#[test]
fn rotate_moves_layers_back() {
    let mut g = Grid::new(3, 4, 0i64);
    g.set(1, 2, 5);
    g.rotate();
    assert_eq!(g.get(1, 1, 2), 5);
    assert_eq!(g.get(0, 1, 2), 0);
    g.set(1, 2, 6);
    g.rotate();
    assert_eq!(g.get(2, 1, 2), 5);
    assert_eq!(g.get(1, 1, 2), 6);
    assert_eq!(g.index(2, 3), 11);
    assert_eq!(g.current().len(), 12);
}

#[test]
fn compact_stencil_fills_only_interior() {
    let mut g = Grid::new(5, 4, -1i64);
    for x in 0..5 {
        for y in 0..4 {
            let i = g.index(x, y);
            g.previous[i] = (10 * x + y) as i64;
            g.older[i] = 100;
        }
    }
    let tau = vec![3i64; 20];
    let rule = |c: &Cross<i64>| {
        c.coef * (c.west + c.east + c.south + c.north - 4 * c.center) + 2 * c.center - c.older
            + 1000 * c.west
    };
    update_with_laplace_operator_1(&mut g, &tau, &rule);
    assert_eq!(g.get(0, 2, 1), 2 * 21 - 100 + 1000 * 11);
    assert_eq!(g.get(0, 3, 2), 2 * 32 - 100 + 1000 * 22);
    for (x, y) in [(0, 0), (0, 2), (4, 1), (2, 0), (2, 3), (4, 3)] {
        assert_eq!(g.get(0, x, y), -1);
    }
    assert_eq!(g.get(1, 2, 1), 21);
    assert_eq!(g.get(2, 2, 1), 100);
}

#[test]
fn wide_stencil_weighs_each_distance() {
    let k = StencilKind::Order4;
    let mut g = Grid::new(17, 17, 0i64);
    let i = g.index(8, 8);
    g.previous[i] = 1;
    let tau = vec![1i64; 17 * 17];
    let rule = |c: &WideCross<i64>| {
        let mut s = k.center_weight() * c.center;
        for a in [c.west, c.east, c.south, c.north] {
            s += k.arm_weight(1) * a.d1 + k.arm_weight(2) * a.d2 + k.arm_weight(3) * a.d3
                + k.arm_weight(4) * a.d4;
        }
        s
    };
    update_with_laplace_operator_4(&mut g, &tau, &rule);
    assert_eq!(g.get(0, 8, 8), -28700);
    assert_eq!(g.get(0, 9, 8), 8064);
    assert_eq!(g.get(0, 8, 6), -1008);
    assert_eq!(g.get(0, 5, 8), 128);
    assert_eq!(g.get(0, 8, 12), -9);
    assert_eq!(g.get(0, 12, 8), -9);
    assert_eq!(g.get(0, 9, 9), 0);
    assert_eq!(g.get(0, 3, 8), 0);
}

#[test]
fn wide_stencil_on_floats_matches_fractions() {
    let mut g = Grid::new(9, 9, 0.0f32);
    for x in 0..9 {
        let i = g.index(x, 4);
        g.previous[i] = 1.0;
    }
    let tau = vec![1.0f32; 81];
    update_with_laplace_operator_4(&mut g, &tau, &(wide_wave as fn(&WideCross<f32>) -> f32));
    let expected = 2.0 * (8.0f32 / 5.0 - 1.0 / 5.0 + 8.0 / 315.0 - 1.0 / 560.0) - 410.0 / 72.0 + 2.0;
    assert!((g.get(0, 4, 4) - expected).abs() < 1e-5);
}

#[test]
fn absorbing_strips_run_in_fixed_order() {
    let mut g = Grid::new(10, 10, 0i64);
    for x in 0..10 {
        for y in 0..10 {
            let i = g.index(x, y);
            g.current[i] = (10 * x + y) as i64;
        }
    }
    let kappa = vec![0i64; 100];
    let rule = |_k: i64, current_inward: i64, _p: i64, _pi: i64| current_inward + 1000;
    update_with_absorbing_boundary(&mut g, &kappa, 4, &rule);
    assert_eq!(g.get(0, 6, 5), 1055);
    assert_eq!(g.get(0, 7, 5), 1065);
    assert_eq!(g.get(0, 3, 5), 1045);
    assert_eq!(g.get(0, 0, 5), 1015);
    assert_eq!(g.get(0, 4, 6), 1045);
    assert_eq!(g.get(0, 7, 6), 2065);
    assert_eq!(g.get(0, 7, 7), 2066);
    assert_eq!(g.get(0, 7, 3), 2064);
    assert_eq!(g.get(0, 6, 3), 2054);
    assert_eq!(g.get(0, 2, 0), 2031);
    assert_eq!(g.get(0, 5, 5), 55);
    assert_eq!(g.get(0, 0, 0), 0);
    assert_eq!(g.get(0, 9, 9), 99);
    assert_eq!(g.get(0, 0, 9), 9);
    assert_eq!(g.get(0, 9, 0), 90);
}

#[test]
fn absorbing_rule_reads_previous_layer() {
    let mut g = Grid::new(4, 4, 0.0f32);
    for x in 0..4 {
        for y in 0..4 {
            let i = g.index(x, y);
            g.current[i] = 1.0;
            g.previous[i] = 0.5;
        }
    }
    let kappa = vec![0.5f32; 16];
    update_with_absorbing_boundary(&mut g, &kappa, 1, &mur);
    let expected = mur(0.5, 1.0, 0.5, 0.5);
    assert_eq!(g.get(0, 3, 1), expected);
    assert_eq!(g.get(0, 1, 0), expected);
    assert_eq!(g.get(0, 1, 1), 1.0);
}

#[test]
fn forcing_drops_events_off_the_grid() {
    let mut g = Grid::new(6, 6, 0i64);
    apply_force(&mut g, true, &vec![(0, 3), (6, 2), (3, 0), (3, 3), (5, 5), (3, 3)], 7);
    assert_eq!(source_cell(6, 6), (4, 4));
    assert_eq!(g.get(0, 4, 4), 7);
    assert_eq!(g.get(0, 3, 3), 7);
    assert_eq!(g.get(0, 5, 5), 7);
    assert_eq!(g.get(0, 0, 3), 0);
    assert_eq!(g.get(0, 3, 0), 0);
    let total: i64 = g.current.iter().sum();
    assert_eq!(total, 21);
}

#[test]
fn source_sits_two_thirds_along() {
    assert_eq!(source_cell(320, 180), (4 * 320 / 6, 4 * 180 / 6));
    assert_eq!(source_cell(16, 16), (10, 10));
    assert_eq!(source_cell(3, 7), (2, 4));
}

#[test]
fn damping_scales_every_layer() {
    let mut g = Grid::new(3, 3, 2.0f32);
    damp_grid(&mut g, &damp);
    for k in 0..3 {
        assert_eq!(at(&g, k, 1, 2), 2.0 * 0.995);
    }
}

#[test]
fn impulse_scenario_with_damping() {
    let shape = GridShape::new(16, 16, 1, true).unwrap();
    let mut s = Solver::new(shape, false, 0.0f32, 0.25, 0.5);
    s.push_event(8, 8);
    assert!(s.advance(false, 100.0, &wave_rules()));
    let centre = ((-4.0f32 * 100.0) * 0.25 + (2.0 * 100.0 - 0.0)) * 0.995;
    let side = (100.0f32 * 0.25 + 0.0) * 0.995;
    assert_eq!(at(&s.grid, 0, 8, 8), centre);
    assert_eq!(centre, 99.5);
    for (x, y) in [(7, 8), (9, 8), (8, 7), (8, 9)] {
        assert_eq!(at(&s.grid, 0, x, y), side);
    }
    assert_eq!(side, 24.875);
    assert_eq!(at(&s.grid, 0, 9, 9), 0.0);
    assert_eq!(at(&s.grid, 0, 10, 8), 0.0);
    assert_eq!(at(&s.grid, 1, 8, 8), 100.0 * 0.995);
    assert_eq!(at(&s.grid, 2, 8, 8), 0.0);
    assert!(s.pending.is_empty());
}

#[test]
fn impulse_reaches_neighbours_evenly() {
    let mut g = Grid::new(12, 12, 0.0f32);
    g.set(5, 6, 3.5);
    let tau = vec![0.3f32; 144];
    let kappa = vec![0.6f32; 144];
    tick(&mut g, StencilKind::Order1, true, &tau, &kappa, &wave_rules());
    let v = at(&g, 0, 6, 6);
    assert_eq!(v, 0.3 * 3.5);
    assert_eq!(at(&g, 0, 4, 6), v);
    assert_eq!(at(&g, 0, 5, 5), v);
    assert_eq!(at(&g, 0, 5, 7), v);
}

#[test]
fn rest_stays_at_rest() {
    for (margin, absorbing) in [(1, false), (1, true), (4, false), (4, true)] {
        let shape = GridShape::new(12, 10, margin, true).unwrap();
        let mut s = Solver::new(shape, absorbing, 0.0f32, 0.25, 0.5);
        for _ in 0..5 {
            assert!(s.advance(true, 1.0, &wave_rules()));
        }
        for k in 0..3 {
            for x in 0..12 {
                for y in 0..10 {
                    assert_eq!(at(&s.grid, k, x, y), 0.0);
                }
            }
        }
    }
}

#[test]
fn absorbing_tick_keeps_history() {
    let shape = GridShape::new(10, 10, 1, true).unwrap();
    let mut s = Solver::new(shape, true, 0.0f32, 0.25, 0.5);
    s.push_event(4, 4);
    s.advance(false, 2.0, &wave_rules());
    s.advance(false, 2.0, &wave_rules());
    let previous = s.grid.previous.clone();
    let current = s.grid.current.clone();
    s.push_event(6, 6);
    s.advance(false, 2.0, &wave_rules());
    assert_eq!(s.grid.older, previous);
    let mut forced = current.clone();
    forced[6 * 10 + 6] = 2.0;
    assert_eq!(s.grid.previous, forced);
}

#[test]
fn damping_tick_shrinks_peak_of_static_field() {
    let mut g = Grid::new(5, 5, 1.0f32);
    let tau = vec![0.25f32; 25];
    let kappa = vec![0.5f32; 25];
    let before = 1.0f32;
    tick(&mut g, StencilKind::Order1, false, &tau, &kappa, &wave_rules());
    let peak = g.current.iter().fold(0.0f32, |m, v| m.max(v.abs()));
    assert!(peak <= 0.995 * before);
}

#[test]
fn commands_drive_ticks_and_source() {
    let shape = GridShape::new(9, 9, 1, true).unwrap();
    let mut s = Solver::new(shape, false, 0.0f32, 0.25, 0.5);
    assert!(s.running);
    assert!(!s.source_active);
    s.advance(true, 1.0, &wave_rules());
    assert_eq!(at(&s.grid, 1, 6, 6), 0.0);
    s.command(Command::Start, true);
    assert!(s.running && s.source_active);
    s.advance(true, 1.0, &wave_rules());
    assert_eq!(at(&s.grid, 1, 6, 6), 0.995);
    s.command(Command::Stop, true);
    assert!(!s.running && !s.source_active);
    s.push_event(2, 2);
    let frozen = s.grid.current.clone();
    assert!(!s.advance(true, 1.0, &wave_rules()));
    assert_eq!(s.grid.current, frozen);
    assert_eq!(s.pending.len(), 1);
    s.command(Command::Start, false);
    assert!(s.running && !s.source_active);
    s.command(Command::Reset, false);
    assert!(s.pending.is_empty());
    assert!(s.grid.current.iter().all(|v| *v == 0.0));
    assert!(s.grid.older.iter().all(|v| *v == 0.0));
    assert!(s.running);
}
