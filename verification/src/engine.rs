//! The mapping engine: applies the inversion map to every point of a sample
//! set, index for index. The parallel entry point fans the points out over
//! rayon's worker pool; the sequential one is a plain verified loop. Both
//! meet the same pointwise contract, so their outputs are provably equal.

use vstd::prelude::*;
use rayon::iter::{IntoParallelRefIterator, ParallelIterator};
use crate::complex::{ComplexPoint, MappingResult, conformal_mapping, cpx_bounded, cpx_wf,
    invert_val, is_origin, res_matches, results_wf};

verus! {

/// Every point of the sequence is well formed and within the mapping's
/// coordinate bound.
pub open spec fn points_ok(s: Seq<ComplexPoint>) -> bool {
    forall|i: int| 0 <= i < s.len() ==> cpx_wf(#[trigger] s[i]@) && cpx_bounded(s[i]@)
}

/// The output sequence is, index for index, the image of the input under
/// the inversion map.
pub open spec fn mapped_pointwise(points: Seq<ComplexPoint>, out: Seq<MappingResult>) -> bool {
    &&& out.len() == points.len()
    &&& forall|i: int| 0 <= i < out.len() ==> res_matches(#[trigger] out[i], points[i]@)
}

/// Relies on rayon: `par_iter().map(..).collect()` over a slice is an
/// indexed parallel iterator, so the collected vector holds, at each index,
/// the closure's result for the input at that same index, whatever the
/// thread count or schedule. The closure only calls this library's verified
/// `conformal_mapping`.
#[verifier::external_body]
fn par_map_points(points: &Vec<ComplexPoint>) -> (r: Vec<MappingResult>)
    requires
        points_ok(points@),
    ensures
        mapped_pointwise(points@, r@),
{
    points.par_iter().map(|z| conformal_mapping(z)).collect()
}

/// Map every sample point in parallel across the available worker threads.
pub fn remap(points: &Vec<ComplexPoint>) -> (r: Vec<MappingResult>)
    requires
        points_ok(points@),
    ensures
        mapped_pointwise(points@, r@),
{
    par_map_points(points)
}

/// Map every sample point one after the other on the calling thread.
pub fn remap_sequential(points: &Vec<ComplexPoint>) -> (r: Vec<MappingResult>)
    requires
        points_ok(points@),
    ensures
        mapped_pointwise(points@, r@),
{
    let mut out: Vec<MappingResult> = Vec::new();
    let mut i: usize = 0;
    while i < points.len()
        invariant
            i <= points.len(),
            out@.len() == i,
            points_ok(points@),
            forall|j: int| 0 <= j < i ==> res_matches(#[trigger] out@[j], points@[j]@),
        decreases points.len() - i,
    {
        let r = conformal_mapping(&points[i]);
        out.push(r);
        i = i + 1;
    }
    out
}

/// Every defined image the engine produces is itself a well formed point:
/// the denominator `re*re + im*im` of an inverted non-origin point is
/// positive.
pub proof fn lemma_mapped_results_wf(points: Seq<ComplexPoint>, out: Seq<MappingResult>)
    requires
        mapped_pointwise(points, out),
    ensures
        results_wf(out),
{
    assert forall|i: int|
        0 <= i < out.len() implies (#[trigger] out[i] matches MappingResult::Defined(w) ==> cpx_wf(
        w@,
    )) by {
        match out[i] {
            MappingResult::Defined(w) => {
                let v = points[i]@;
                assert(w@ == invert_val(v) && !is_origin(v));
                assert((v.re != 0 || v.im != 0) ==> v.re * v.re + v.im * v.im > 0)
                    by (nonlinear_arith);
            },
            _ => {},
        }
    }
}

/// The mapping is a function of the input sequence alone: any two outputs
/// that are pointwise images of the same input — in particular one computed
/// in parallel and one sequentially — are the same sequence.
pub proof fn lemma_mapping_deterministic(
    points: Seq<ComplexPoint>,
    out1: Seq<MappingResult>,
    out2: Seq<MappingResult>,
)
    requires
        mapped_pointwise(points, out1),
        mapped_pointwise(points, out2),
    ensures
        out1 == out2,
{
    assert forall|i: int| 0 <= i < out1.len() implies out1[i] == out2[i] by {
        match (out1[i], out2[i]) {
            (MappingResult::Defined(w1), MappingResult::Defined(w2)) => {
                assert(w1@ == w2@);
                assert(w1 == w2);
            },
            _ => {},
        }
    }
    assert(out1 =~= out2);
}

} // verus!
