use conformal::complex::{ComplexPoint, MappingResult, COORD_BOUND};
use conformal::engine::{remap, remap_sequential};
use conformal::sampler::grid_points;

fn pt(re: i64, im: i64, den: i64) -> ComplexPoint {
    ComplexPoint::new(re, im, den)
}

fn value_eq(u: &ComplexPoint, v: &ComplexPoint) -> bool {
    (u.re_num as i128) * (v.den as i128) == (v.re_num as i128) * (u.den as i128)
        && (u.im_num as i128) * (v.den as i128) == (v.im_num as i128) * (u.den as i128)
}

#[test]
fn mapping_of_origin_is_undefined() {
    assert_eq!(conformal::complex::conformal_mapping(&pt(0, 0, 1)), MappingResult::Undefined);
    assert_eq!(conformal::complex::conformal_mapping(&pt(0, 0, 7)), MappingResult::Undefined);
}

#[test]
fn mapping_inverts_exactly() {
    // 1 / (1 + i) = (1 - i) / 2
    let r = conformal::complex::conformal_mapping(&pt(1, 1, 1));
    assert_eq!(r, MappingResult::Defined(ComplexPoint { re_num: 1, im_num: -1, den: 2 }));
    // 1 / (1/2) = 2
    let r = conformal::complex::conformal_mapping(&pt(1, 0, 2));
    assert_eq!(r, MappingResult::Defined(ComplexPoint { re_num: 2, im_num: 0, den: 1 }));
    // 1 / (-2i) = i/2
    let r = conformal::complex::conformal_mapping(&pt(0, -2, 1));
    assert_eq!(r, MappingResult::Defined(ComplexPoint { re_num: 0, im_num: 2, den: 4 }));
}

#[test]
fn mapping_twice_is_the_identity_away_from_origin() {
    let samples = [pt(1, 1, 1), pt(-3, 2, 5), pt(0, 4, 7), pt(50, -50, 50), pt(1, 0, 1000)];
    for z in samples.iter() {
        let once = match conformal::complex::conformal_mapping(z) {
            MappingResult::Defined(w) => w,
            MappingResult::Undefined => panic!("unexpected pole"),
        };
        let twice = match conformal::complex::conformal_mapping(&once) {
            MappingResult::Defined(w) => w,
            MappingResult::Undefined => panic!("unexpected pole"),
        };
        assert!(value_eq(&twice, z));
    }
}

#[test]
fn mapping_twice_matches_floats() {
    // the exact rational inversion agrees with a floating-point inversion
    let z = pt(3, -4, 5);
    let w = match conformal::complex::conformal_mapping(&z) {
        MappingResult::Defined(w) => w,
        MappingResult::Undefined => panic!("unexpected pole"),
    };
    let (zr, zi) = (3.0f64 / 5.0, -4.0f64 / 5.0);
    let norm = zr * zr + zi * zi;
    let (er, ei) = (zr / norm, -zi / norm);
    let wr = w.re_num as f64 / w.den as f64;
    let wi = w.im_num as f64 / w.den as f64;
    assert!((wr - er).abs() < 1e-12);
    assert!((wi - ei).abs() < 1e-12);
}

#[test]
fn remap_keeps_length_and_index_alignment() {
    let points = vec![pt(1, 1, 1), pt(0, 0, 1), pt(2, -1, 3)];
    let out = remap_sequential(&points);
    assert_eq!(out.len(), points.len());
    assert!(matches!(out[0], MappingResult::Defined(_)));
    assert_eq!(out[1], MappingResult::Undefined);
    assert!(matches!(out[2], MappingResult::Defined(_)));
    let out_par = remap(&points);
    assert_eq!(out_par.len(), points.len());
}

#[test]
fn parallel_and_sequential_mapping_agree_on_large_grid() {
    let grid = grid_points(101).expect("valid resolution");
    assert_eq!(grid.len(), 101 * 101);
    let par = remap(&grid);
    let seq = remap_sequential(&grid);
    assert_eq!(par, seq);
}

#[test]
fn remap_handles_fixed_point_circle_values() {
    let den: i64 = 1 << 20;
    let points = vec![pt(den, 0, den), pt(0, den, den), pt(-741455, 741455, den)];
    assert!(points.iter().all(|z| {
        z.re_num.abs() <= COORD_BOUND && z.im_num.abs() <= COORD_BOUND && z.den <= COORD_BOUND
    }));
    let out = remap(&points);
    assert_eq!(out.len(), 3);
    // 1/1 == 1 and 1/i == -i, exactly
    match &out[0] {
        MappingResult::Defined(w) => assert!(value_eq(w, &pt(1, 0, 1))),
        MappingResult::Undefined => panic!("unexpected pole"),
    }
    match &out[1] {
        MappingResult::Defined(w) => assert!(value_eq(w, &pt(0, -1, 1))),
        MappingResult::Undefined => panic!("unexpected pole"),
    }
}
