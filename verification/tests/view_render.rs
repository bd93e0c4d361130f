use conformal::complex::{ComplexPoint, MappingResult};
use conformal::connectivity::connections;
use conformal::engine::remap_sequential;
use conformal::projector::{project, ScreenPoint};
use conformal::render::{frame_rect, grid_segments, polyline_segments, FrameRect};
use conformal::sampler::{grid_points, ConfigError};
use conformal::scale::Scale;
use conformal::view::{render_plan, InputEvent, RunStatus, Scene, ViewState};

#[test]
fn zoom_in_shrinks_by_nine_tenths() {
    let mut s = Scale::start();
    assert_eq!(s.micros, 1_000_000);
    s.zoom_in();
    assert_eq!(s.micros, 900_000);
    s.zoom_out();
    assert_eq!(s.micros, 1_000_000);
}

#[test]
fn zoom_clamp_floor_holds_for_any_run() {
    let mut s = Scale::start();
    for _ in 0..1000 {
        s.zoom_in();
        assert!(s.micros >= 90_000);
    }
    // at the fixpoint the scale sits at or under the 0.1 threshold
    assert!(s.micros <= 100_000);
    let frozen = s.micros;
    s.zoom_in();
    assert_eq!(s.micros, frozen);
}

#[test]
fn zoom_clamp_ceiling_holds_for_any_run() {
    let mut s = Scale::start();
    for _ in 0..1000 {
        s.zoom_out();
        assert!(s.micros <= 11_111_110);
    }
    assert!(s.micros >= 10_000_000);
    let frozen = s.micros;
    s.zoom_out();
    assert_eq!(s.micros, frozen);
}

#[test]
fn view_state_stops_on_quit_and_escape() {
    let mut v = ViewState::start();
    assert_eq!(v.status, RunStatus::Running);
    v.handle_event(InputEvent::Quit);
    assert_eq!(v.status, RunStatus::Stopped);

    let mut v = ViewState::start();
    v.handle_event(InputEvent::EscapeKey);
    assert_eq!(v.status, RunStatus::Stopped);
}

#[test]
fn view_state_ignores_events_once_stopped() {
    let mut v = ViewState::start();
    v.handle_events(&vec![InputEvent::ZoomInKey, InputEvent::Quit, InputEvent::ZoomInKey]);
    assert_eq!(v.status, RunStatus::Stopped);
    assert_eq!(v.scale.micros, 900_000);
}

#[test]
fn view_state_ignores_unknown_keys() {
    let mut v = ViewState::start();
    v.handle_events(&vec![InputEvent::Other, InputEvent::Other]);
    assert_eq!(v.status, RunStatus::Running);
    assert_eq!(v.scale.micros, 1_000_000);
}

#[test]
fn grid_mesh_omits_edges_touching_the_pole() {
    // 3x3 grid over [-1,1]: the center sample is the pole
    let grid = grid_points(3).expect("valid resolution");
    let mapped = remap_sequential(&grid);
    assert_eq!(mapped[4], MappingResult::Undefined);
    let conns = connections(3);
    let sc = Scale::start();
    let segs = grid_segments(&conns, &mapped, &sc, 800);
    // 12 undirected edges drawn from both endpoints is 24 directed segments;
    // the pole's 4 edges lose both directions: 24 - 8
    assert_eq!(segs.len(), 16);
}

#[test]
fn grid_mesh_segments_use_only_defined_projections() {
    let grid = grid_points(3).expect("valid resolution");
    let mapped = remap_sequential(&grid);
    let conns = connections(3);
    let sc = Scale::start();
    let segs = grid_segments(&conns, &mapped, &sc, 800);
    let defined: Vec<ScreenPoint> =
        mapped.iter().filter_map(|r| project(r, &sc, 800)).collect();
    for s in segs.iter() {
        assert!(defined.contains(&s.a));
        assert!(defined.contains(&s.b));
    }
}

#[test]
fn polyline_splits_at_an_undefined_sample() {
    // -1, 0, 1 on the real axis: the middle sample is the pole, so both
    // candidate segments touch it and nothing is drawn
    let line = remap_sequential(&vec![
        ComplexPoint::new(-1, 0, 1),
        ComplexPoint::new(0, 0, 1),
        ComplexPoint::new(1, 0, 1),
    ]);
    let sc = Scale::start();
    assert_eq!(polyline_segments(&line, &sc, 800).len(), 0);

    // with no pole every consecutive pair is drawn
    let line = remap_sequential(&vec![
        ComplexPoint::new(1, 0, 1),
        ComplexPoint::new(1, 1, 1),
        ComplexPoint::new(0, 1, 1),
    ]);
    assert_eq!(polyline_segments(&line, &sc, 800).len(), 2);
}

#[test]
fn frame_rect_spans_the_projected_corners() {
    let sc = Scale::start();
    let ca = MappingResult::Defined(ComplexPoint::new(-1, -1, 1));
    let cb = MappingResult::Defined(ComplexPoint::new(1, 1, 1));
    let r = frame_rect(&ca, &cb, &sc, 800);
    assert_eq!(r, Some(FrameRect { x: 0, y: 0, w: 800, h: 800 }));
}

#[test]
fn frame_rect_normalizes_corner_order() {
    let sc = Scale::start();
    // corners whose projections come out of order span the same rectangle
    let ca = MappingResult::Defined(ComplexPoint::new(-1, 1, 1));
    let cb = MappingResult::Defined(ComplexPoint::new(1, -1, 1));
    let r = frame_rect(&ca, &cb, &sc, 800);
    assert_eq!(r, Some(FrameRect { x: 0, y: 0, w: 800, h: 800 }));
}

#[test]
fn frame_rect_needs_both_corners_defined() {
    let sc = Scale::start();
    let ca = MappingResult::Undefined;
    let cb = MappingResult::Defined(ComplexPoint::new(1, 1, 1));
    assert_eq!(frame_rect(&ca, &cb, &sc, 800), None);
}

#[test]
fn scene_rejects_bad_configurations() {
    let circle: Vec<ComplexPoint> = Vec::new();
    assert!(matches!(Scene::new(1, 800, &circle), Err(ConfigError::InvalidConfiguration)));
    assert!(matches!(Scene::new(101, 0, &circle), Err(ConfigError::InvalidConfiguration)));
}

#[test]
fn scene_maps_every_sample_set_together() {
    let circle = vec![ComplexPoint::new(1, 0, 1), ComplexPoint::new(0, 1, 1)];
    let scene = Scene::new(5, 800, &circle).expect("valid configuration");
    assert_eq!(scene.mapped_grid.len(), 25);
    assert_eq!(scene.mapped_x_axis.len(), 5);
    assert_eq!(scene.mapped_y_axis.len(), 5);
    assert_eq!(scene.mapped_circle.len(), 2);
    // the grid's center is the pole
    assert_eq!(scene.mapped_grid[12], MappingResult::Undefined);
}

#[test]
fn render_plan_projects_the_whole_scene() {
    let circle = vec![ComplexPoint::new(1, 0, 1), ComplexPoint::new(0, 1, 1)];
    let scene = Scene::new(3, 800, &circle).expect("valid configuration");
    let sc = Scale::start();
    let plan = render_plan(&scene, &sc);
    assert_eq!(plan.grid.len(), 16);
    // both axes pass through the pole at their middle sample
    assert_eq!(plan.x_axis.len(), 0);
    assert_eq!(plan.y_axis.len(), 0);
    // 1/1 and 1/i are both defined, so the circle keeps its one segment
    assert_eq!(plan.circle.len(), 1);
    // the corners' images 1/(-1-i) = (-1+i)/2 and 1/(1+i) = (1-i)/2 project
    // to (200, 600) and (600, 200); the frame spans them
    assert_eq!(plan.frame, Some(FrameRect { x: 200, y: 200, w: 400, h: 400 }));
}
