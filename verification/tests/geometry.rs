use conformal::complex::{ComplexPoint, MappingResult};
use conformal::connectivity::{connections, count_edges};
use conformal::projector::{project, ScreenPoint};
use conformal::sampler::{circle_turns, grid_points, x_axis_points, y_axis_points, ConfigError};
use conformal::scale::Scale;

#[test]
fn sampler_rejects_degenerate_resolutions() {
    assert_eq!(grid_points(0), Err(ConfigError::InvalidConfiguration));
    assert_eq!(grid_points(1), Err(ConfigError::InvalidConfiguration));
    assert_eq!(x_axis_points(1), Err(ConfigError::InvalidConfiguration));
    assert_eq!(y_axis_points(0), Err(ConfigError::InvalidConfiguration));
    assert_eq!(circle_turns(1), Err(ConfigError::InvalidConfiguration));
}

#[test]
fn sampler_grid_covers_the_square() {
    let g = grid_points(3).expect("valid resolution");
    assert_eq!(g.len(), 9);
    // row-major with the real part slow: index = im + re * 3, half-width 1
    assert_eq!(g[0], ComplexPoint::new(-1, -1, 1));
    assert_eq!(g[1], ComplexPoint::new(-1, 0, 1));
    assert_eq!(g[4], ComplexPoint::new(0, 0, 1));
    assert_eq!(g[8], ComplexPoint::new(1, 1, 1));
}

#[test]
fn sampler_axes_step_through_the_same_spacing() {
    let xs = x_axis_points(5).expect("valid resolution");
    let ys = y_axis_points(5).expect("valid resolution");
    assert_eq!(xs.len(), 5);
    assert_eq!(ys.len(), 5);
    assert_eq!(xs[0], ComplexPoint::new(-2, 0, 2));
    assert_eq!(xs[4], ComplexPoint::new(2, 0, 2));
    assert_eq!(ys[1], ComplexPoint::new(0, -1, 2));
}

#[test]
fn sampler_circle_reuses_axis_spacing_in_turns() {
    let turns = circle_turns(5).expect("valid resolution");
    assert_eq!(turns.len(), 5);
    assert_eq!(turns[0], (-2, 2));
    assert_eq!(turns[2], (0, 2));
    assert_eq!(turns[4], (2, 2));
}

#[test]
fn connectivity_of_the_first_corner() {
    let conns = connections(5);
    assert_eq!(conns.len(), 25);
    let c = conns[0];
    assert_eq!(c.pos, 0);
    assert_eq!(c.left, None);
    assert_eq!(c.up, None);
    assert_eq!(c.right, Some(1));
    assert_eq!(c.down, Some(5));
}

#[test]
fn connectivity_interior_and_far_corner() {
    let conns = connections(3);
    let mid = conns[4];
    assert_eq!((mid.left, mid.right, mid.up, mid.down), (Some(3), Some(5), Some(1), Some(7)));
    let far = conns[8];
    assert_eq!((far.left, far.right, far.up, far.down), (Some(7), None, Some(5), None));
}

#[test]
fn connectivity_edge_count_formula() {
    for n in [1usize, 2, 3, 5, 10] {
        let conns = connections(n);
        assert_eq!(count_edges(&conns), (2 * n * (n - 1)) as u64);
    }
}

#[test]
fn projector_centers_the_origin() {
    let sc = Scale::start();
    let r = MappingResult::Defined(ComplexPoint::new(0, 0, 1));
    assert_eq!(project(&r, &sc, 800), Some(ScreenPoint { x: 400, y: 400 }));
}

#[test]
fn projector_puts_the_low_corner_at_zero() {
    let sc = Scale::start();
    let r = MappingResult::Defined(ComplexPoint::new(-1, -1, 1));
    assert_eq!(project(&r, &sc, 800), Some(ScreenPoint { x: 0, y: 0 }));
}

#[test]
fn projector_maps_undefined_to_nothing() {
    let sc = Scale::start();
    assert_eq!(project(&MappingResult::Undefined, &sc, 800), None);
    let mut zoomed = Scale::start();
    zoomed.zoom_in();
    assert_eq!(project(&MappingResult::Undefined, &zoomed, 123), None);
}

#[test]
fn projector_truncates_toward_zero() {
    let sc = Scale::start();
    // (1/3 + 1) * 800 / 2 = 533.33.. -> 533
    let r = MappingResult::Defined(ComplexPoint::new(1, 1, 3));
    assert_eq!(project(&r, &sc, 800), Some(ScreenPoint { x: 533, y: 533 }));
}

#[test]
fn projector_clamps_far_points() {
    let sc = Scale::start();
    // 1/z for z near the pole lands far outside any i32 viewport
    let big = MappingResult::Defined(ComplexPoint::new(i64::MAX, 0, 1));
    let p = project(&big, &sc, 800).expect("defined");
    assert_eq!(p.x, i32::MAX);
}
