//! The sampler: the fixed input point sets — square grid, the two axes, and
//! the angular stations of the unit circle — as exact rationals, computed
//! from the grid resolution alone.
//!
//! For a resolution `n` the half-width is `l = n/2` and each axis carries
//! the `n` values `-l/l, .., (n-1-l)/l`; the grid is their Cartesian
//! product, flattened with the real part as the slow index. A resolution
//! below two has half-width zero and no spacing at all, so it is rejected
//! as an invalid configuration.

use vstd::prelude::*;
use crate::complex::{ComplexPoint, CpxVal};

verus! {

/// Why a configuration was rejected at startup.
#[derive(Clone, Copy, Debug, PartialEq, Eq, Structural)]
pub enum ConfigError {
    /// The grid resolution or the viewport size is too small to sample.
    InvalidConfiguration,
}

/// Half-width of the sampled square, in grid steps.
pub open spec fn half_width(n: int) -> int {
    n / 2
}

/// The grid point at flat index `i`: `index = im + re * n`, the real part
/// the slow coordinate, both coordinates stepping through `(-l..n-l)/l`.
pub open spec fn grid_sample(n: int, i: int) -> CpxVal {
    CpxVal { re: i / n - half_width(n), im: i % n - half_width(n), den: half_width(n) }
}

/// The `i`-th sample along the real axis.
pub open spec fn x_axis_sample(n: int, i: int) -> CpxVal {
    CpxVal { re: i - half_width(n), im: 0, den: half_width(n) }
}

/// The `i`-th sample along the imaginary axis.
pub open spec fn y_axis_sample(n: int, i: int) -> CpxVal {
    CpxVal { re: 0, im: i - half_width(n), den: half_width(n) }
}

/// The square grid of `n * n` rational sample points covering `[-1, 1]` on
/// both axes. Rejects resolutions below two (no half-width to divide by).
pub fn grid_points(n: usize) -> (r: Result<Vec<ComplexPoint>, ConfigError>)
    requires
        n <= 0xFFFF,
    ensures
        r is Err <==> n < 2,
        r matches Ok(g) ==> {
            &&& g@.len() == n * n
            &&& forall|i: int| 0 <= i < n * n ==> #[trigger] g@[i]@ == grid_sample(n as int, i)
        },
{
    if n < 2 {
        return Err(ConfigError::InvalidConfiguration);
    }
    let l = n / 2;
    proof {
        assert(n * n <= 0xFFFF * 0xFFFF) by (nonlinear_arith)
            requires n <= 0xFFFF;
    }
    let total = n * n;
    let mut g: Vec<ComplexPoint> = Vec::new();
    let mut i: usize = 0;
    while i < total
        invariant
            2 <= n <= 0xFFFF,
            l == n / 2,
            total == n * n,
            i <= total,
            g@.len() == i,
            forall|j: int| 0 <= j < i ==> #[trigger] g@[j]@ == grid_sample(n as int, j),
        decreases total - i,
    {
        let row = i / n;
        let col = i % n;
        proof {
            assert(i / n < n && i % n < n) by (nonlinear_arith)
                requires 0 < n, i < n * n;
        }
        g.push(ComplexPoint {
            re_num: row as i64 - l as i64,
            im_num: col as i64 - l as i64,
            den: l as i64,
        });
        i = i + 1;
    }
    Ok(g)
}

/// The `n` samples along the real axis, at the grid's spacing.
pub fn x_axis_points(n: usize) -> (r: Result<Vec<ComplexPoint>, ConfigError>)
    requires
        n <= 0xFFFF,
    ensures
        r is Err <==> n < 2,
        r matches Ok(v) ==> {
            &&& v@.len() == n
            &&& forall|i: int| 0 <= i < n ==> #[trigger] v@[i]@ == x_axis_sample(n as int, i)
        },
{
    if n < 2 {
        return Err(ConfigError::InvalidConfiguration);
    }
    let l = n / 2;
    let mut v: Vec<ComplexPoint> = Vec::new();
    let mut i: usize = 0;
    while i < n
        invariant
            2 <= n <= 0xFFFF,
            l == n / 2,
            i <= n,
            v@.len() == i,
            forall|j: int| 0 <= j < i ==> #[trigger] v@[j]@ == x_axis_sample(n as int, j),
        decreases n - i,
    {
        v.push(ComplexPoint { re_num: i as i64 - l as i64, im_num: 0, den: l as i64 });
        i = i + 1;
    }
    Ok(v)
}

/// The `n` samples along the imaginary axis, at the grid's spacing.
pub fn y_axis_points(n: usize) -> (r: Result<Vec<ComplexPoint>, ConfigError>)
    requires
        n <= 0xFFFF,
    ensures
        r is Err <==> n < 2,
        r matches Ok(v) ==> {
            &&& v@.len() == n
            &&& forall|i: int| 0 <= i < n ==> #[trigger] v@[i]@ == y_axis_sample(n as int, i)
        },
{
    if n < 2 {
        return Err(ConfigError::InvalidConfiguration);
    }
    let l = n / 2;
    let mut v: Vec<ComplexPoint> = Vec::new();
    let mut i: usize = 0;
    while i < n
        invariant
            2 <= n <= 0xFFFF,
            l == n / 2,
            i <= n,
            v@.len() == i,
            forall|j: int| 0 <= j < i ==> #[trigger] v@[j]@ == y_axis_sample(n as int, j),
        decreases n - i,
    {
        v.push(ComplexPoint { re_num: 0, im_num: i as i64 - l as i64, den: l as i64 });
        i = i + 1;
    }
    Ok(v)
}

/// The unit circle's angular stations: the `i`-th sample sits at the angle
/// of `(i - l) / l` full turns. This reuses the imaginary axis's linear
/// spacing scaled to whole turns, so consecutive resolutions wind the
/// circle differently; the parameterization is kept as the visualization
/// defines it. Each pair is `(turn numerator, turn denominator)`; turning
/// the station into a point on the circle takes trigonometry, which is left
/// to the caller.
pub fn circle_turns(n: usize) -> (r: Result<Vec<(i64, i64)>, ConfigError>)
    requires
        n <= 0xFFFF,
    ensures
        r is Err <==> n < 2,
        r matches Ok(v) ==> {
            &&& v@.len() == n
            &&& forall|i: int| 0 <= i < n ==> (#[trigger] v@[i]).0 == i - half_width(n as int)
                && v@[i].1 == half_width(n as int)
        },
{
    if n < 2 {
        return Err(ConfigError::InvalidConfiguration);
    }
    let l = n / 2;
    let mut v: Vec<(i64, i64)> = Vec::new();
    let mut i: usize = 0;
    while i < n
        invariant
            2 <= n <= 0xFFFF,
            l == n / 2,
            i <= n,
            v@.len() == i,
            forall|j: int| 0 <= j < i ==> (#[trigger] v@[j]).0 == j - half_width(n as int)
                && v@[j].1 == half_width(n as int),
        decreases n - i,
    {
        v.push((i as i64 - l as i64, l as i64));
        i = i + 1;
    }
    Ok(v)
}

} // verus!
