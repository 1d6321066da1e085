use doggowarp::pos::{isqrt, Pos};

#[test]
fn len_of_three_four_triangle() {
    // 3.000 by 4.000 units: length exactly 5.000 units.
    let p = Pos::new(3000, 4000);
    assert_eq!(p.len(), 5000);
}

#[test]
fn len_rounds_down() {
    // |(1.000, 1.000)| = 1.414213..., floored to thousandths.
    let p = Pos::new(1000, 1000);
    assert_eq!(p.len(), 1414);
}

#[test]
fn isqrt_exact_and_floor() {
    assert_eq!(isqrt(0), 0);
    assert_eq!(isqrt(1), 1);
    assert_eq!(isqrt(24), 4);
    assert_eq!(isqrt(25), 5);
    assert_eq!(isqrt(26), 5);
    assert_eq!(isqrt(u64::MAX), 0xffff_ffff);
}

#[test]
fn dist_of_point_to_itself_is_zero() {
    let a = Pos::new(123_456, -654_321);
    assert_eq!(a.dist(a), 0);
}

#[test]
fn dist_is_symmetric() {
    let a = Pos::new(10_000, -20_000);
    let b = Pos::new(-3_000, 7_500);
    assert_eq!(a.dist(b), b.dist(a));
}

#[test]
fn add_then_sub_is_identity() {
    let a = Pos::new(1_234_567, -7_654_321);
    let b = Pos::new(-987_654, 321_987);
    let r = a.add(b).sub(b);
    assert_eq!(r.x, a.x);
    assert_eq!(r.y, a.y);
}

#[test]
fn scale_is_exact_on_halves() {
    // Scaling (2.000, -3.000) by 0.500 gives exactly (1.000, -1.500).
    let p = Pos::new(2000, -3000).scale(500);
    assert_eq!(p.x, 1000);
    assert_eq!(p.y, -1500);
}

#[test]
fn scale_rounds_toward_zero() {
    // 1.999 * 0.001 = 0.001999, truncated to 0.001; mirrored for negatives.
    let p = Pos::new(1999, -1999).scale(1);
    assert_eq!(p.x, 1);
    assert_eq!(p.y, -1);
}

#[test]
fn scale_then_div_lands_within_one_step() {
    // A factor of at least one unit: the round trip differs from the
    // original by at most one thousandth per component.
    let a = Pos::new(1_234_567, -7_654_321);
    for f in [1000i64, 1500, 2500, 190_000, -1000, -3333] {
        let r = a.scale(f).div(f);
        assert!((r.x - a.x).abs() <= 1, "x off by {} for f={}", r.x - a.x, f);
        assert!((r.y - a.y).abs() <= 1, "y off by {} for f={}", r.y - a.y, f);
    }
}

#[test]
fn div_by_negative_factor() {
    let p = Pos::new(1000, -2000).div(-500);
    assert_eq!(p.x, -2000);
    assert_eq!(p.y, 4000);
}
