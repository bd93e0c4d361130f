//! Points of the complex plane with exact rational coordinates, and the
//! inversion map z -> 1/z, the mapping this library visualizes.
//!
//! A point is stored as a pair of integer numerators over one positive
//! integer denominator, so every coordinate this library computes is an
//! exact rational number; the singular point of the map is represented
//! explicitly rather than by any sentinel value.

use vstd::prelude::*;

verus! {

/// Largest coordinate magnitude (numerators and denominator) accepted by the
/// mapping: keeps every product taken while inverting a point within `i64`.
pub const COORD_BOUND: i64 = 0x4000_0000;

/// A point of the complex plane: the value `(re_num/den, im_num/den)`.
/// The shared denominator is kept positive.
#[derive(Clone, Copy, Debug, PartialEq, Eq, Structural)]
pub struct ComplexPoint {
    pub re_num: i64,
    pub im_num: i64,
    pub den: i64,
}

/// The mathematical value of a point: both coordinates over one
/// denominator, as unbounded integers.
pub ghost struct CpxVal {
    pub re: int,
    pub im: int,
    pub den: int,
}

impl View for ComplexPoint {
    type V = CpxVal;

    open spec fn view(&self) -> CpxVal {
        CpxVal { re: self.re_num as int, im: self.im_num as int, den: self.den as int }
    }
}

/// A point is well formed when its denominator is positive.
pub open spec fn cpx_wf(v: CpxVal) -> bool {
    0 < v.den
}

/// All three stored integers fit under `COORD_BOUND`.
pub open spec fn cpx_bounded(v: CpxVal) -> bool {
    &&& -COORD_BOUND <= v.re <= COORD_BOUND
    &&& -COORD_BOUND <= v.im <= COORD_BOUND
    &&& v.den <= COORD_BOUND
}

/// The origin, the one point where inversion is undefined.
pub open spec fn is_origin(v: CpxVal) -> bool {
    v.re == 0 && v.im == 0
}

/// Two representations denote the same complex number:
/// `a/c == b/d` exactly when `a*d == b*c`, coordinate by coordinate.
pub open spec fn same_value(u: CpxVal, v: CpxVal) -> bool {
    &&& u.re * v.den == v.re * u.den
    &&& u.im * v.den == v.im * u.den
}

/// The exact value of `1/z` for `z = (a + b*i)/d`:
/// `1/z = d*(a - b*i) / (a*a + b*b)`.
pub open spec fn invert_val(v: CpxVal) -> CpxVal {
    CpxVal { re: v.re * v.den, im: -(v.im * v.den), den: v.re * v.re + v.im * v.im }
}

/// The image of one sample point: the mapped value, or `Undefined` at a
/// point where the mapping has no value.
#[derive(Clone, Copy, Debug, PartialEq, Eq, Structural)]
pub enum MappingResult {
    Undefined,
    Defined(ComplexPoint),
}

/// `r` is the image of the point with value `v` under inversion:
/// `Undefined` exactly at the origin, and otherwise the exact value of `1/v`.
pub open spec fn res_matches(r: MappingResult, v: CpxVal) -> bool {
    match r {
        MappingResult::Undefined => is_origin(v),
        MappingResult::Defined(w) => !is_origin(v) && w@ == invert_val(v),
    }
}

/// Every defined result of the sequence holds a well formed point.
pub open spec fn results_wf(s: Seq<MappingResult>) -> bool {
    forall|i: int|
        0 <= i < s.len() ==> (#[trigger] s[i] matches MappingResult::Defined(w) ==> cpx_wf(w@))
}

impl ComplexPoint {
    /// Build a point from its numerators and positive denominator.
    pub fn new(re_num: i64, im_num: i64, den: i64) -> (z: Self)
        requires
            0 < den,
        ensures
            z@ == (CpxVal { re: re_num as int, im: im_num as int, den: den as int }),
    {
        ComplexPoint { re_num, im_num, den }
    }
}

/// The mapping itself: `1/z` as an exact rational point, `Undefined` at the
/// origin. This is the sole place the map being visualized is defined.
pub fn conformal_mapping(z: &ComplexPoint) -> (r: MappingResult)
    requires
        cpx_wf(z@),
        cpx_bounded(z@),
    ensures
        res_matches(r, z@),
{
    if z.re_num == 0 && z.im_num == 0 {
        MappingResult::Undefined
    } else {
        proof {
            let a = z.re_num as int;
            let b = z.im_num as int;
            let d = z.den as int;
            assert((a * a <= 0x1000_0000_0000_0000) && (b * b <= 0x1000_0000_0000_0000)
                && (0 <= a * a) && (0 <= b * b)
                && (-0x1000_0000_0000_0000 <= a * d <= 0x1000_0000_0000_0000)
                && (-0x1000_0000_0000_0000 <= b * d <= 0x1000_0000_0000_0000)
                && ((a != 0 || b != 0) ==> 0 < a * a + b * b)) by (nonlinear_arith)
                requires
                    -0x4000_0000 <= a <= 0x4000_0000,
                    -0x4000_0000 <= b <= 0x4000_0000,
                    0 < d <= 0x4000_0000;
        }
        let re_sq: i64 = z.re_num * z.re_num;
        let im_sq: i64 = z.im_num * z.im_num;
        MappingResult::Defined(ComplexPoint {
            re_num: z.re_num * z.den,
            im_num: -(z.im_num * z.den),
            den: re_sq + im_sq,
        })
    }
}

/// Inverting twice is the identity away from the origin: for every well
/// formed point `v` other than the origin, `1/v` is itself well formed and
/// away from the origin, and `1/(1/v)` denotes exactly the number `v`.
pub proof fn lemma_mapping_involution(v: CpxVal)
    requires
        cpx_wf(v),
        !is_origin(v),
    ensures
        cpx_wf(invert_val(v)),
        !is_origin(invert_val(v)),
        same_value(invert_val(invert_val(v)), v),
{
    let a = v.re;
    let b = v.im;
    let d = v.den;
    assert(((a != 0 || b != 0) && 0 < d) ==> (0 < a * a + b * b
        && (a * d != 0 || b * d != 0)
        && (a * d) * (a * d) + (-(b * d)) * (-(b * d)) == (a * a + b * b) * (d * d)
        && (a * d) * (a * a + b * b) * d == a * ((a * a + b * b) * (d * d))
        && -(-(b * d) * (a * a + b * b)) * d == b * ((a * a + b * b) * (d * d))))
        by (nonlinear_arith);
}

} // verus!
