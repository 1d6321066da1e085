use doggowarp::pos::Pos;
use doggowarp::smooth::Smooth;
use doggowarp::timing::{Elapsed, Fps};

#[test]
fn smoother_fixpoint_is_exact() {
    // A state already at the sample returns the sample exactly.
    let v = Pos::new(10_000, -4_321);
    let mut s = Smooth::new(v);
    let r = s.update(v);
    assert_eq!(r.x, v.x);
    assert_eq!(r.y, v.y);
    assert_eq!(s.t.x, v.x);
    assert_eq!(s.t.y, v.y);
}

#[test]
fn smoother_approaches_constant_input_monotonically() {
    // From rest, fed (10.000, 0) five times: approaches it from below,
    // never overshooting: 0.4 of the remaining gap is covered each step.
    let mut s = Smooth::new(Pos::new(0, 0));
    let v = Pos::new(10_000, 0);
    let expected = [4000i64, 6400, 7840, 8704, 9223];
    let mut prev = 0i64;
    for e in expected {
        let r = s.update(v);
        assert_eq!(r.x, e);
        assert_eq!(r.y, 0);
        assert!(prev < r.x && r.x <= 10_000);
        prev = r.x;
    }
}

#[test]
fn smoother_converges_all_the_way() {
    // The gap shrinks by at least one thousandth per step, so it closes.
    let mut s = Smooth::new(Pos::new(0, 500));
    let v = Pos::new(100, -100);
    for _ in 0..700 {
        s.update(v);
    }
    assert_eq!(s.t.x, v.x);
    assert_eq!(s.t.y, v.y);
}

#[test]
fn elapsed_at_measures_and_advances() {
    let mut e = Elapsed::new_at(100);
    assert_eq!(e.elapsed_at(250), 150);
    assert_eq!(e.elapsed_at(250), 0);
    assert_eq!(e.elapsed_at(300), 50);
}

#[test]
fn elapsed_at_never_negative_on_backwards_clock() {
    let mut e = Elapsed::new_at(1000);
    assert_eq!(e.elapsed_at(400), 0);
    // The reference point still moved to the earlier reading.
    assert_eq!(e.elapsed_at(500), 100);
}

#[test]
fn elapsed_wall_clock_smoke() {
    let mut e = Elapsed::new();
    let first = e.elapsed();
    let second = e.elapsed();
    // Consecutive queries of a sane clock give tiny, nonnegative deltas.
    assert!(first < 60_000);
    assert!(second < 60_000);
}

#[test]
fn fps_counts_inside_window_and_reports_on_crossing() {
    // Thirty ticks within 900 ms, one more at 1001 ms: the first thirty
    // return nothing, the crossing tick reports thirty and resets.
    let mut f = Fps::new_at(0);
    for i in 0..30u64 {
        assert_eq!(f.tick_at(i * 30), None);
    }
    assert_eq!(f.count, 30);
    assert_eq!(f.tick_at(1001), Some(30));
    assert_eq!(f.count, 0);
    assert_eq!(f.last, 1001);
    // The next window counts afresh.
    assert_eq!(f.tick_at(1002), None);
    assert_eq!(f.count, 1);
}

#[test]
fn fps_reports_exactly_on_the_second() {
    let mut f = Fps::new_at(500);
    assert_eq!(f.tick_at(1499), None);
    assert_eq!(f.tick_at(1500), Some(1));
}

#[test]
fn fps_backwards_clock_counts_as_in_window() {
    let mut f = Fps::new_at(5000);
    assert_eq!(f.tick_at(100), None);
    assert_eq!(f.count, 1);
    assert_eq!(f.last, 5000);
}
