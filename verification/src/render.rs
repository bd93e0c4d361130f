//! The renderer's geometry: walking the connectivity model and the polyline
//! sample sets, projecting endpoints, and keeping a segment only when both
//! of its endpoints projected to a defined coordinate. An edge touching an
//! undefined sample is silently omitted — that is the visualization of a
//! discontinuity, not an error — and a polyline with an undefined sample
//! splits into disconnected sub-paths.
//!
//! Everything here computes plain segment lists; putting them on a drawing
//! surface is the caller's concern.

use vstd::prelude::*;
use crate::complex::{MappingResult, results_wf};
use crate::connectivity::{Connection, conn_indices_in};
use crate::projector::{ScreenPoint, project, project_val};
use crate::scale::{Scale, scale_wf};

verus! {

/// A drawable line segment; holding one at all means both endpoints exist.
#[derive(Clone, Copy, Debug, PartialEq, Eq, Structural)]
pub struct Segment {
    pub a: ScreenPoint,
    pub b: ScreenPoint,
}

/// The reference rectangle around the sampled domain, as drawn.
#[derive(Clone, Copy, Debug, PartialEq, Eq, Structural)]
pub struct FrameRect {
    pub x: i32,
    pub y: i32,
    pub w: u32,
    pub h: u32,
}

/// The one segment between two projected endpoints — none unless both are
/// defined.
pub open spec fn seg_between(pa: Option<ScreenPoint>, pb: Option<ScreenPoint>) -> Seq<Segment> {
    match (pa, pb) {
        (Some(a), Some(b)) => seq![Segment { a, b }],
        _ => Seq::empty(),
    }
}

/// The segments (none or one) between a projected grid point and one of its
/// neighbors.
pub open spec fn neighbor_seg(
    mapped: Seq<MappingResult>,
    pos_proj: Option<ScreenPoint>,
    nb: Option<usize>,
    m: int,
    p: int,
) -> Seq<Segment> {
    match nb {
        Some(j) => seg_between(pos_proj, project_val(mapped[j as int], m, p)),
        None => Seq::empty(),
    }
}

/// All segments one adjacency entry contributes: toward its left, right,
/// up and down neighbors, in that order.
pub open spec fn entry_segs(c: Connection, mapped: Seq<MappingResult>, m: int, p: int) -> Seq<
    Segment,
> {
    let pc = project_val(mapped[c.pos as int], m, p);
    neighbor_seg(mapped, pc, c.left, m, p) + neighbor_seg(mapped, pc, c.right, m, p)
        + neighbor_seg(mapped, pc, c.up, m, p) + neighbor_seg(mapped, pc, c.down, m, p)
}

/// All segments of the mapped grid mesh, entry by entry.
pub open spec fn grid_segs(
    conns: Seq<Connection>,
    mapped: Seq<MappingResult>,
    m: int,
    p: int,
) -> Seq<Segment>
    decreases conns.len(),
{
    if conns.len() == 0 {
        Seq::empty()
    } else {
        grid_segs(conns.drop_last(), mapped, m, p) + entry_segs(conns.last(), mapped, m, p)
    }
}

/// All segments of a mapped polyline: one between each pair of consecutive
/// samples whose projections are both defined.
pub open spec fn polyline_segs(line: Seq<MappingResult>, m: int, p: int) -> Seq<Segment>
    decreases line.len(),
{
    if line.len() < 2 {
        Seq::empty()
    } else {
        polyline_segs(line.drop_last(), m, p) + seg_between(
            project_val(line[line.len() - 2], m, p),
            project_val(line.last(), m, p),
        )
    }
}

/// The reference rectangle spanned by two projected corners: present
/// exactly when both corners project to defined coordinates. The span is
/// normalized per axis, so either corner order describes the same
/// rectangle.
pub open spec fn frame_rect_val(ca: MappingResult, cb: MappingResult, m: int, p: int) -> Option<
    FrameRect,
> {
    match (project_val(ca, m, p), project_val(cb, m, p)) {
        (Some(a), Some(b)) => Some(
            FrameRect {
                x: if a.x <= b.x { a.x } else { b.x },
                y: if a.y <= b.y { a.y } else { b.y },
                w: (if a.x <= b.x { b.x - a.x } else { a.x - b.x }) as u32,
                h: (if a.y <= b.y { b.y - a.y } else { a.y - b.y }) as u32,
            },
        ),
        _ => None,
    }
}

/// The screen point is the defined projection of some point of `mapped`.
pub open spec fn endpoint_defined(
    sp: ScreenPoint,
    mapped: Seq<MappingResult>,
    m: int,
    p: int,
) -> bool {
    exists|i: int| 0 <= i < mapped.len() && project_val(#[trigger] mapped[i], m, p) == Some(sp)
}

/// Every segment of `segs` runs between projections of points of `mapped`
/// that are both defined: no segment has an undefined endpoint.
pub open spec fn segs_endpoints_defined(
    segs: Seq<Segment>,
    mapped: Seq<MappingResult>,
    m: int,
    p: int,
) -> bool {
    forall|k: int|
        0 <= k < segs.len() ==> endpoint_defined((#[trigger] segs[k]).a, mapped, m, p)
            && endpoint_defined(segs[k].b, mapped, m, p)
}

/// Append the segment toward one neighbor, if both projections exist.
fn push_edge(
    segs: &mut Vec<Segment>,
    pc: &Option<ScreenPoint>,
    nb: &Option<usize>,
    mapped: &Vec<MappingResult>,
    scale: &Scale,
    viewport: u32,
)
    requires
        scale_wf(*scale),
        1 <= viewport,
        results_wf(mapped@),
        nb matches Some(j) ==> j < mapped@.len(),
    ensures
        final(segs)@ == old(segs)@ + neighbor_seg(
            mapped@,
            *pc,
            *nb,
            scale.micros as int,
            viewport as int,
        ),
{
    match nb {
        None => {
            proof {
                assert(segs@ =~= segs@ + Seq::<Segment>::empty());
            }
        },
        Some(j) => {
            let pj = project(&mapped[*j], scale, viewport);
            match (pc, &pj) {
                (Some(a), Some(b)) => {
                    segs.push(Segment { a: *a, b: *b });
                    proof {
                        assert(segs@ =~= old(segs)@ + seg_between(*pc, pj));
                    }
                },
                _ => {
                    proof {
                        assert(seg_between(*pc, pj) =~= Seq::<Segment>::empty());
                        assert(segs@ =~= segs@ + seg_between(*pc, pj));
                    }
                },
            }
        },
    }
}

/// The segments of the whole mapped grid mesh at the current scale.
#[verifier::rlimit(60)]
pub fn grid_segments(
    conns: &Vec<Connection>,
    mapped: &Vec<MappingResult>,
    scale: &Scale,
    viewport: u32,
) -> (segs: Vec<Segment>)
    requires
        scale_wf(*scale),
        1 <= viewport,
        results_wf(mapped@),
        forall|i: int| 0 <= i < conns@.len() ==> conn_indices_in(#[trigger] conns@[i], mapped@.len() as int),
    ensures
        segs@ == grid_segs(conns@, mapped@, scale.micros as int, viewport as int),
{
    let ghost m = scale.micros as int;
    let ghost p = viewport as int;
    let mut segs: Vec<Segment> = Vec::new();
    proof {
        assert(segs@ =~= grid_segs(conns@.take(0), mapped@, m, p));
    }
    let mut i: usize = 0;
    while i < conns.len()
        invariant
            i <= conns@.len(),
            scale_wf(*scale),
            1 <= viewport,
            m == scale.micros as int,
            p == viewport as int,
            results_wf(mapped@),
            forall|k: int|
                0 <= k < conns@.len() ==> conn_indices_in(#[trigger] conns@[k], mapped@.len() as int),
            segs@ == grid_segs(conns@.take(i as int), mapped@, m, p),
        decreases conns@.len() - i,
    {
        let c = conns[i];
        let pc = project(&mapped[c.pos], scale, viewport);
        let ghost before = segs@;
        let ghost n1 = neighbor_seg(mapped@, pc, c.left, m, p);
        let ghost n2 = neighbor_seg(mapped@, pc, c.right, m, p);
        let ghost n3 = neighbor_seg(mapped@, pc, c.up, m, p);
        let ghost n4 = neighbor_seg(mapped@, pc, c.down, m, p);
        push_edge(&mut segs, &pc, &c.left, mapped, scale, viewport);
        push_edge(&mut segs, &pc, &c.right, mapped, scale, viewport);
        push_edge(&mut segs, &pc, &c.up, mapped, scale, viewport);
        push_edge(&mut segs, &pc, &c.down, mapped, scale, viewport);
        proof {
            assert(segs@ =~= before + (n1 + n2 + n3 + n4));
            assert(pc == project_val(mapped@[c.pos as int], m, p));
            assert(n1 + n2 + n3 + n4 == entry_segs(conns@[i as int], mapped@, m, p));
            assert(conns@.take(i + 1).drop_last() =~= conns@.take(i as int));
            assert(conns@.take(i + 1).last() == conns@[i as int]);
            assert(segs@ =~= grid_segs(conns@.take(i + 1), mapped@, m, p));
        }
        i = i + 1;
    }
    proof {
        assert(conns@.take(conns@.len() as int) =~= conns@);
    }
    segs
}

/// The segments of one mapped polyline at the current scale.
pub fn polyline_segments(line: &Vec<MappingResult>, scale: &Scale, viewport: u32) -> (segs: Vec<
    Segment,
>)
    requires
        scale_wf(*scale),
        1 <= viewport,
        results_wf(line@),
    ensures
        segs@ == polyline_segs(line@, scale.micros as int, viewport as int),
{
    let ghost m = scale.micros as int;
    let ghost p = viewport as int;
    let mut segs: Vec<Segment> = Vec::new();
    if line.len() < 2 {
        proof {
            assert(segs@ =~= polyline_segs(line@, m, p));
        }
        return segs;
    }
    proof {
        assert(segs@ =~= polyline_segs(line@.take(1), m, p));
    }
    let mut i: usize = 1;
    while i < line.len()
        invariant
            1 <= i <= line@.len(),
            scale_wf(*scale),
            1 <= viewport,
            m == scale.micros as int,
            p == viewport as int,
            results_wf(line@),
            segs@ == polyline_segs(line@.take(i as int), m, p),
        decreases line@.len() - i,
    {
        let pa = project(&line[i - 1], scale, viewport);
        let pb = project(&line[i], scale, viewport);
        let ghost before = segs@;
        if let (Some(a), Some(b)) = (&pa, &pb) {
            segs.push(Segment { a: *a, b: *b });
        }
        proof {
            let t = line@.take(i + 1);
            assert(t.drop_last() =~= line@.take(i as int));
            assert(t.last() == line@[i as int]);
            assert(t[t.len() - 2] == line@[i - 1]);
            assert(segs@ =~= before + seg_between(pa, pb));
            assert(segs@ =~= polyline_segs(line@.take(i + 1), m, p));
        }
        i = i + 1;
    }
    proof {
        assert(line@.take(line@.len() as int) =~= line@);
    }
    segs
}

/// The reference rectangle between two projected corner values: drawn
/// exactly when both corners are defined, whichever way round they project.
pub fn frame_rect(ca: &MappingResult, cb: &MappingResult, scale: &Scale, viewport: u32) -> (r:
    Option<FrameRect>)
    requires
        scale_wf(*scale),
        1 <= viewport,
        ca matches MappingResult::Defined(z) ==> z@.den > 0,
        cb matches MappingResult::Defined(z) ==> z@.den > 0,
    ensures
        r == frame_rect_val(*ca, *cb, scale.micros as int, viewport as int),
{
    let pa = project(ca, scale, viewport);
    let pb = project(cb, scale, viewport);
    match (pa, pb) {
        (Some(a), Some(b)) => {
            let x = if a.x <= b.x { a.x } else { b.x };
            let y = if a.y <= b.y { a.y } else { b.y };
            let w = (if a.x <= b.x { b.x as i64 - a.x as i64 } else { a.x as i64 - b.x as i64 })
                as u32;
            let h = (if a.y <= b.y { b.y as i64 - a.y as i64 } else { a.y as i64 - b.y as i64 })
                as u32;
            Some(FrameRect { x, y, w, h })
        },
        _ => None,
    }
}

proof fn lemma_segs_defined_concat(
    s1: Seq<Segment>,
    s2: Seq<Segment>,
    mapped: Seq<MappingResult>,
    m: int,
    p: int,
)
    requires
        segs_endpoints_defined(s1, mapped, m, p),
        segs_endpoints_defined(s2, mapped, m, p),
    ensures
        segs_endpoints_defined(s1 + s2, mapped, m, p),
{
    let s = s1 + s2;
    assert forall|k: int| 0 <= k < s.len() implies endpoint_defined(
        (#[trigger] s[k]).a,
        mapped,
        m,
        p,
    ) && endpoint_defined(s[k].b, mapped, m, p) by {
        if k < s1.len() {
            assert(s[k] == s1[k]);
        } else {
            assert(s[k] == s2[k - s1.len()]);
        }
    }
}

proof fn lemma_neighbor_seg_defined(
    mapped: Seq<MappingResult>,
    pos: int,
    nb: Option<usize>,
    m: int,
    p: int,
)
    requires
        0 <= pos < mapped.len(),
        nb matches Some(j) ==> j < mapped.len(),
    ensures
        segs_endpoints_defined(
            neighbor_seg(mapped, project_val(mapped[pos], m, p), nb, m, p),
            mapped,
            m,
            p,
        ),
{
    let s = neighbor_seg(mapped, project_val(mapped[pos], m, p), nb, m, p);
    match nb {
        Some(j) => {
            if s.len() > 0 {
                assert(project_val(mapped[pos], m, p) == Some(s[0].a));
                assert(project_val(mapped[j as int], m, p) == Some(s[0].b));
            }
        },
        None => {},
    }
}

proof fn lemma_entry_segs_defined(c: Connection, mapped: Seq<MappingResult>, m: int, p: int)
    requires
        conn_indices_in(c, mapped.len() as int),
    ensures
        segs_endpoints_defined(entry_segs(c, mapped, m, p), mapped, m, p),
{
    let pc = project_val(mapped[c.pos as int], m, p);
    lemma_neighbor_seg_defined(mapped, c.pos as int, c.left, m, p);
    lemma_neighbor_seg_defined(mapped, c.pos as int, c.right, m, p);
    lemma_neighbor_seg_defined(mapped, c.pos as int, c.up, m, p);
    lemma_neighbor_seg_defined(mapped, c.pos as int, c.down, m, p);
    lemma_segs_defined_concat(
        neighbor_seg(mapped, pc, c.left, m, p),
        neighbor_seg(mapped, pc, c.right, m, p),
        mapped,
        m,
        p,
    );
    lemma_segs_defined_concat(
        neighbor_seg(mapped, pc, c.left, m, p) + neighbor_seg(mapped, pc, c.right, m, p),
        neighbor_seg(mapped, pc, c.up, m, p),
        mapped,
        m,
        p,
    );
    lemma_segs_defined_concat(
        neighbor_seg(mapped, pc, c.left, m, p) + neighbor_seg(mapped, pc, c.right, m, p)
            + neighbor_seg(mapped, pc, c.up, m, p),
        neighbor_seg(mapped, pc, c.down, m, p),
        mapped,
        m,
        p,
    );
}

/// The renderer draws no undefined endpoint: every segment of the grid mesh
/// runs between two defined projections of mapped grid points.
pub proof fn lemma_grid_segs_endpoints_defined(
    conns: Seq<Connection>,
    mapped: Seq<MappingResult>,
    m: int,
    p: int,
)
    requires
        forall|i: int|
            0 <= i < conns.len() ==> conn_indices_in(#[trigger] conns[i], mapped.len() as int),
    ensures
        segs_endpoints_defined(grid_segs(conns, mapped, m, p), mapped, m, p),
    decreases conns.len(),
{
    if conns.len() > 0 {
        let pre = conns.drop_last();
        assert(forall|i: int| 0 <= i < pre.len() ==> #[trigger] pre[i] == conns[i]);
        lemma_grid_segs_endpoints_defined(pre, mapped, m, p);
        lemma_entry_segs_defined(conns.last(), mapped, m, p);
        lemma_segs_defined_concat(
            grid_segs(pre, mapped, m, p),
            entry_segs(conns.last(), mapped, m, p),
            mapped,
            m,
            p,
        );
    }
}

proof fn lemma_endpoint_defined_prefix(
    sp: ScreenPoint,
    pre: Seq<MappingResult>,
    line: Seq<MappingResult>,
    m: int,
    p: int,
)
    requires
        pre.len() <= line.len(),
        forall|i: int| 0 <= i < pre.len() ==> #[trigger] pre[i] == line[i],
        endpoint_defined(sp, pre, m, p),
    ensures
        endpoint_defined(sp, line, m, p),
{
    let i = choose|i: int| 0 <= i < pre.len() && project_val(#[trigger] pre[i], m, p) == Some(sp);
    assert(0 <= i < line.len() && project_val(line[i], m, p) == Some(sp));
}

/// The renderer draws no undefined endpoint along a polyline either: every
/// segment runs between two defined projections of the line's samples.
pub proof fn lemma_polyline_segs_endpoints_defined(line: Seq<MappingResult>, m: int, p: int)
    ensures
        segs_endpoints_defined(polyline_segs(line, m, p), line, m, p),
    decreases line.len(),
{
    if line.len() >= 2 {
        let pre = line.drop_last();
        assert(forall|i: int| 0 <= i < pre.len() ==> #[trigger] pre[i] == line[i]);
        lemma_polyline_segs_endpoints_defined(pre, m, p);
        let a = polyline_segs(pre, m, p);
        assert(segs_endpoints_defined(a, line, m, p)) by {
            assert forall|k: int| 0 <= k < a.len() implies endpoint_defined(
                (#[trigger] a[k]).a,
                line,
                m,
                p,
            ) && endpoint_defined(a[k].b, line, m, p) by {
                lemma_endpoint_defined_prefix(a[k].a, pre, line, m, p);
                lemma_endpoint_defined_prefix(a[k].b, pre, line, m, p);
            }
        }
        let tail = seg_between(
            project_val(line[line.len() - 2], m, p),
            project_val(line.last(), m, p),
        );
        if tail.len() > 0 {
            assert(project_val(line[line.len() - 2], m, p) == Some(tail[0].a));
            assert(line.last() == line[line.len() - 1]);
            assert(project_val(line[line.len() - 1], m, p) == Some(tail[0].b));
        }
        assert(segs_endpoints_defined(tail, line, m, p));
        lemma_segs_defined_concat(a, tail, line, m, p);
    }
}

} // verus!
