//! The interactive loop's decisions and the per-frame scene.
//!
//! The loop itself — polling a window, sleeping a frame period — lives with
//! the caller; this module holds everything it decides. A `ViewState` is
//! the loop's mutable state: running or stopped, and the zoom scale. Each
//! drained input event steps it; quit and escape stop it for good, the
//! arrow keys zoom within the clamp.
//!
//! A `Scene` holds the mapped sample sets and the adjacency table,
//! computed once at startup: the mapping does not depend on the zoom
//! scale, so only the projection is recomputed per frame, by
//! `render_plan`, which assembles every segment, and the reference
//! rectangle between the mapped images of the domain corners, for the
//! current scale.

use vstd::prelude::*;
use crate::complex::{ComplexPoint, MappingResult, conformal_mapping, cpx_bounded, cpx_wf,
    res_matches, results_wf};
use crate::connectivity::{Connection, connections, connections_ok, lemma_connections_in_range};
use crate::engine::{lemma_mapped_results_wf, mapped_pointwise, points_ok, remap};
use crate::render::{FrameRect, Segment, frame_rect, frame_rect_val, grid_segments, grid_segs,
    polyline_segments, polyline_segs};
use crate::sampler::{ConfigError, grid_points, grid_sample, x_axis_points, x_axis_sample,
    y_axis_points, y_axis_sample};
use crate::scale::{MICROS_PER_UNIT, SCALE_MAX_MICROS, SCALE_MIN_MICROS, Scale,
    lemma_zoom_step_clamped, scale_wf, zoom_in_micros, zoom_out_micros};

verus! {

/// One discrete input event, as the loop understands it.
#[derive(Clone, Copy, Debug, PartialEq, Eq, Structural)]
pub enum InputEvent {
    /// The window was asked to close.
    Quit,
    /// The escape key: quit as well.
    EscapeKey,
    /// The key bound to zooming in.
    ZoomInKey,
    /// The key bound to zooming out.
    ZoomOutKey,
    /// Anything else: ignored.
    Other,
}

/// Whether the loop still runs. `Stopped` is absorbing.
#[derive(Clone, Copy, Debug, PartialEq, Eq, Structural)]
pub enum RunStatus {
    Running,
    Stopped,
}

/// The loop's mutable state: its status and the zoom scale.
pub struct ViewState {
    pub status: RunStatus,
    pub scale: Scale,
}

/// The mathematical content of a `ViewState`.
pub ghost struct ViewVal {
    pub status: RunStatus,
    pub micros: int,
}

impl View for ViewState {
    type V = ViewVal;

    open spec fn view(&self) -> ViewVal {
        ViewVal { status: self.status, micros: self.scale.micros as int }
    }
}

/// The scale stays within the clamp's reachable band.
pub open spec fn view_wf(v: ViewVal) -> bool {
    SCALE_MIN_MICROS <= v.micros <= SCALE_MAX_MICROS
}

/// One event's effect: nothing once stopped; quit and escape stop;
/// the zoom keys move the scale under the clamp; anything else is ignored.
pub open spec fn step_val(v: ViewVal, ev: InputEvent) -> ViewVal {
    if v.status is Stopped {
        v
    } else {
        match ev {
            InputEvent::Quit => ViewVal { status: RunStatus::Stopped, micros: v.micros },
            InputEvent::EscapeKey => ViewVal { status: RunStatus::Stopped, micros: v.micros },
            InputEvent::ZoomInKey => ViewVal { status: v.status, micros: zoom_in_micros(v.micros) },
            InputEvent::ZoomOutKey => ViewVal {
                status: v.status,
                micros: zoom_out_micros(v.micros),
            },
            InputEvent::Other => v,
        }
    }
}

/// The effect of draining a whole sequence of events, oldest first.
pub open spec fn run_val(v: ViewVal, evs: Seq<InputEvent>) -> ViewVal
    decreases evs.len(),
{
    if evs.len() == 0 {
        v
    } else {
        step_val(run_val(v, evs.drop_last()), evs.last())
    }
}

impl ViewState {
    /// The startup state: running, at scale `1.0`.
    pub fn start() -> (s: Self)
        ensures
            s@.status is Running,
            s@.micros == MICROS_PER_UNIT,
            view_wf(s@),
    {
        ViewState { status: RunStatus::Running, scale: Scale::start() }
    }

    /// Apply one drained input event.
    pub fn handle_event(&mut self, ev: InputEvent)
        requires
            view_wf(old(self)@),
        ensures
            final(self)@ == step_val(old(self)@, ev),
            view_wf(final(self)@),
    {
        match self.status {
            RunStatus::Stopped => {},
            RunStatus::Running => match ev {
                InputEvent::Quit => {
                    self.status = RunStatus::Stopped;
                },
                InputEvent::EscapeKey => {
                    self.status = RunStatus::Stopped;
                },
                InputEvent::ZoomInKey => {
                    self.scale.zoom_in();
                },
                InputEvent::ZoomOutKey => {
                    self.scale.zoom_out();
                },
                InputEvent::Other => {},
            },
        }
    }

    /// Apply every drained input event of one frame, oldest first.
    pub fn handle_events(&mut self, evs: &Vec<InputEvent>)
        requires
            view_wf(old(self)@),
        ensures
            final(self)@ == run_val(old(self)@, evs@),
            view_wf(final(self)@),
    {
        let ghost init = self@;
        let mut i: usize = 0;
        while i < evs.len()
            invariant
                i <= evs@.len(),
                self@ == run_val(init, evs@.take(i as int)),
                view_wf(self@),
            decreases evs@.len() - i,
        {
            proof {
                assert(evs@.take(i + 1).drop_last() =~= evs@.take(i as int));
                assert(evs@.take(i + 1).last() == evs@[i as int]);
            }
            self.handle_event(evs[i]);
            i = i + 1;
        }
        proof {
            assert(evs@.take(evs@.len() as int) =~= evs@);
        }
    }
}

/// The zoom clamp holds across any sequence of inputs: starting anywhere in
/// the reachable band, no run of events drives the scale below
/// `SCALE_MIN_MICROS` (one ninth under the `0.1` floor) or above
/// `SCALE_MAX_MICROS`.
pub proof fn lemma_zoom_clamp_over_events(v: ViewVal, evs: Seq<InputEvent>)
    requires
        view_wf(v),
    ensures
        view_wf(run_val(v, evs)),
    decreases evs.len(),
{
    if evs.len() > 0 {
        lemma_zoom_clamp_over_events(v, evs.drop_last());
        lemma_zoom_step_clamped(run_val(v, evs.drop_last()).micros);
    }
}

/// The immutable per-run scene: the adjacency table and the four mapped
/// sample sequences, all computed together from one resolution.
pub struct Scene {
    pub resolution: usize,
    pub viewport: u32,
    pub connections: Vec<Connection>,
    pub mapped_grid: Vec<MappingResult>,
    pub mapped_x_axis: Vec<MappingResult>,
    pub mapped_y_axis: Vec<MappingResult>,
    pub mapped_circle: Vec<MappingResult>,
}

/// A scene as `Scene::new` builds it: the adjacency table matches the
/// resolution, and every mapped sequence is, index for index, the image of
/// its sample set under the inversion map.
pub open spec fn scene_wf(s: Scene) -> bool {
    &&& 2 <= s.resolution <= 0xFFFF
    &&& 1 <= s.viewport
    &&& connections_ok(s.connections@, s.resolution as int)
    &&& s.mapped_grid@.len() == s.resolution * s.resolution
    &&& forall|i: int|
        0 <= i < s.mapped_grid@.len() ==> res_matches(
            #[trigger] s.mapped_grid@[i],
            grid_sample(s.resolution as int, i),
        )
    &&& s.mapped_x_axis@.len() == s.resolution
    &&& forall|i: int|
        0 <= i < s.mapped_x_axis@.len() ==> res_matches(
            #[trigger] s.mapped_x_axis@[i],
            x_axis_sample(s.resolution as int, i),
        )
    &&& s.mapped_y_axis@.len() == s.resolution
    &&& forall|i: int|
        0 <= i < s.mapped_y_axis@.len() ==> res_matches(
            #[trigger] s.mapped_y_axis@[i],
            y_axis_sample(s.resolution as int, i),
        )
    &&& results_wf(s.mapped_grid@)
    &&& results_wf(s.mapped_x_axis@)
    &&& results_wf(s.mapped_y_axis@)
    &&& results_wf(s.mapped_circle@)
}

impl Scene {
    /// Sample, connect and map everything once, for resolution `n` and a
    /// square viewport. The caller supplies the unit circle's points, since
    /// placing an angular station on the circle takes trigonometry; any well
    /// formed, bounded points are accepted and mapped like every other set.
    pub fn new(n: usize, viewport: u32, circle_points: &Vec<ComplexPoint>) -> (r: Result<
        Scene,
        ConfigError,
    >)
        requires
            n <= 0xFFFF,
            points_ok(circle_points@),
        ensures
            r is Err <==> (n < 2 || viewport == 0),
            r matches Ok(s) ==> {
                &&& scene_wf(s)
                &&& s.resolution == n
                &&& s.viewport == viewport
                &&& mapped_pointwise(circle_points@, s.mapped_circle@)
            },
    {
        if viewport == 0 {
            return Err(ConfigError::InvalidConfiguration);
        }
        let grid = match grid_points(n) {
            Ok(g) => g,
            Err(e) => {
                return Err(e);
            },
        };
        let xs = match x_axis_points(n) {
            Ok(v) => v,
            Err(e) => {
                return Err(e);
            },
        };
        let ys = match y_axis_points(n) {
            Ok(v) => v,
            Err(e) => {
                return Err(e);
            },
        };
        let conns = connections(n);
        proof {
            assert forall|i: int|
                0 <= i < grid@.len() implies cpx_wf(#[trigger] grid@[i]@) && cpx_bounded(
                grid@[i]@,
            ) by {
                assert(grid@[i]@ == grid_sample(n as int, i));
                assert(0 <= i / (n as int) <= n - 1 && 0 <= i % (n as int) <= n - 1) by (nonlinear_arith)
                    requires 0 < (n as int), 0 <= i < (n as int) * (n as int);
            }
        }
        let mapped_grid = remap(&grid);
        let mapped_x_axis = remap(&xs);
        let mapped_y_axis = remap(&ys);
        let mapped_circle = remap(circle_points);
        proof {
            lemma_mapped_results_wf(grid@, mapped_grid@);
            lemma_mapped_results_wf(xs@, mapped_x_axis@);
            lemma_mapped_results_wf(ys@, mapped_y_axis@);
            lemma_mapped_results_wf(circle_points@, mapped_circle@);
        }
        Ok(
            Scene {
                resolution: n,
                viewport,
                connections: conns,
                mapped_grid,
                mapped_x_axis,
                mapped_y_axis,
                mapped_circle,
            },
        )
    }
}

/// Everything one frame draws, grouped as it is drawn: the grid mesh, the
/// three polylines, and the reference rectangle.
pub struct RenderPlan {
    pub grid: Vec<Segment>,
    pub x_axis: Vec<Segment>,
    pub y_axis: Vec<Segment>,
    pub circle: Vec<Segment>,
    pub frame: Option<FrameRect>,
}

/// The image of the domain corner `(-1, -1)` under the inversion map:
/// `1/(-1 - i) = (-1 + i)/2`. Neither corner is the pole, so both images
/// are defined and the reference rectangle is always drawn.
pub open spec fn low_corner_image() -> MappingResult {
    MappingResult::Defined(ComplexPoint { re_num: -1i64, im_num: 1, den: 2 })
}

/// The image of the domain corner `(1, 1)` under the inversion map:
/// `1/(1 + i) = (1 - i)/2`.
pub open spec fn high_corner_image() -> MappingResult {
    MappingResult::Defined(ComplexPoint { re_num: 1, im_num: -1i64, den: 2 })
}

/// Project the whole scene at the current scale: every mesh segment, every
/// polyline segment, and the reference rectangle between the projections of
/// the domain corners' images under the mapping.
pub fn render_plan(scene: &Scene, scale: &Scale) -> (plan: RenderPlan)
    requires
        scene_wf(*scene),
        scale_wf(*scale),
    ensures
        plan.grid@ == grid_segs(
            scene.connections@,
            scene.mapped_grid@,
            scale.micros as int,
            scene.viewport as int,
        ),
        plan.x_axis@ == polyline_segs(
            scene.mapped_x_axis@,
            scale.micros as int,
            scene.viewport as int,
        ),
        plan.y_axis@ == polyline_segs(
            scene.mapped_y_axis@,
            scale.micros as int,
            scene.viewport as int,
        ),
        plan.circle@ == polyline_segs(
            scene.mapped_circle@,
            scale.micros as int,
            scene.viewport as int,
        ),
        plan.frame == frame_rect_val(
            low_corner_image(),
            high_corner_image(),
            scale.micros as int,
            scene.viewport as int,
        ),
{
    proof {
        lemma_connections_in_range(scene.connections@, scene.resolution as int);
    }
    let grid = grid_segments(&scene.connections, &scene.mapped_grid, scale, scene.viewport);
    let x_axis = polyline_segments(&scene.mapped_x_axis, scale, scene.viewport);
    let y_axis = polyline_segments(&scene.mapped_y_axis, scale, scene.viewport);
    let circle = polyline_segments(&scene.mapped_circle, scale, scene.viewport);
    let ca = conformal_mapping(&ComplexPoint::new(-1, -1, 1));
    let cb = conformal_mapping(&ComplexPoint::new(1, 1, 1));
    proof {
        assert(ca == low_corner_image());
        assert(cb == high_corner_image());
    }
    let frame = frame_rect(&ca, &cb, scale, scene.viewport);
    RenderPlan { grid, x_axis, y_axis, circle, frame }
}

} // verus!
