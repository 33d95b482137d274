use pixel_fight::geom::{clamp_add, dist2_u, isqrt, step_toward, POS_LIMIT};
use pixel_fight::V2;

#[test]
fn isqrt_exact_values() {
    assert_eq!(isqrt(0), 0);
    assert_eq!(isqrt(1), 1);
    assert_eq!(isqrt(3), 1);
    assert_eq!(isqrt(4), 2);
    assert_eq!(isqrt(99), 9);
    assert_eq!(isqrt(100), 10);
    assert_eq!(isqrt(10_000), 100);
    assert_eq!(isqrt(u64::MAX), 4_294_967_295);
}

#[test]
fn squared_distance() {
    let a = V2 { x: 0, y: 0 };
    let b = V2 { x: 3, y: -4 };
    assert_eq!(dist2_u(a, b), 25);
    assert_eq!(dist2_u(b, a), 25);
    assert_eq!(dist2_u(a, a), 0);
    let far = V2 { x: POS_LIMIT, y: POS_LIMIT };
    let opposite = V2 { x: -POS_LIMIT, y: -POS_LIMIT };
    assert_eq!(dist2_u(far, opposite), 8_000_000_000_000_000_000);
}

#[test]
fn step_scales_direction_exactly() {
    let o = V2 { x: 0, y: 0 };
    // along an axis the step is the full step length
    assert_eq!(step_toward(o, V2 { x: 100, y: 0 }, 20), V2 { x: 20, y: 0 });
    assert_eq!(step_toward(V2 { x: 100, y: 0 }, o, 20), V2 { x: -20, y: 0 });
    // a 3-4-5 triangle scales both components exactly
    assert_eq!(step_toward(o, V2 { x: 30, y: 40 }, 5), V2 { x: 3, y: 4 });
    assert_eq!(step_toward(o, V2 { x: -30, y: 40 }, 5), V2 { x: -3, y: 4 });
    // a degenerate direction moves nowhere
    assert_eq!(step_toward(o, o, 20), V2 { x: 0, y: 0 });
    // components round toward zero
    assert_eq!(step_toward(o, V2 { x: 10, y: 10 }, 10), V2 { x: 7, y: 7 });
}

#[test]
fn clamped_addition_saturates_at_arena_bounds() {
    assert_eq!(clamp_add(0, 5), 5);
    assert_eq!(clamp_add(POS_LIMIT - 1, 5), POS_LIMIT);
    assert_eq!(clamp_add(-POS_LIMIT, -17), -POS_LIMIT);
    assert_eq!(clamp_add(POS_LIMIT, i64::MAX), POS_LIMIT);
    assert_eq!(clamp_add(-3, -(i64::MAX)), -POS_LIMIT);
}
