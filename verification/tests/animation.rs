use state_space_tween::anim::{AnimationError, MultiVariableAnimation, Ratio, MAX_STATE, MAX_TIME_MS};

fn demo() -> MultiVariableAnimation<3> {
    MultiVariableAnimation::new(
        vec![1i64, 2, 3],
        vec![4i64, 5, 6],
        vec![7i64, 8, 9],
        vec![10i64, 11, 12],
        2000,
    )
    .unwrap()
}

#[test]
fn zero_duration_is_rejected() {
    let r: Result<MultiVariableAnimation<3>, AnimationError> = MultiVariableAnimation::new(
        vec![1i64, 2, 3],
        vec![4i64, 5, 6],
        vec![7i64, 8, 9],
        vec![10i64, 11, 12],
        0,
    );
    assert_eq!(r.unwrap_err(), AnimationError::NonPositiveDuration);
}

#[test]
fn negative_duration_is_rejected() {
    let r: Result<MultiVariableAnimation<2>, AnimationError> =
        MultiVariableAnimation::new(vec![1i64, 2], vec![1i64, 2], vec![1i64, 2], vec![1i64, 2], -7);
    assert_eq!(r.unwrap_err(), AnimationError::NonPositiveDuration);
}

#[test]
fn sample_at_time_zero_is_exactly_start() {
    let a = demo();
    let s = a.sample(0);
    let start = a.start();
    assert_eq!(s.len(), 3);
    for i in 0..3 {
        // the ratio s[i] equals the integer start[i] exactly
        assert_eq!(s[i].num, (start[i] as i128) * s[i].den);
    }
}

#[test]
fn sample_at_full_duration_is_exactly_end() {
    let a = demo();
    let s = a.sample(2000);
    let end = a.end();
    for i in 0..3 {
        assert_eq!(s[i].num, (end[i] as i128) * s[i].den);
    }
}

#[test]
fn parameter_for_half_the_duration_is_one_half() {
    let a = demo();
    let t = a.t_for_time(1000);
    assert_eq!(t.num, 1000);
    assert_eq!(t.den, 2000);
    // as a value, 1000 / 2000 == 1 / 2
    assert_eq!(t.num * 2, 1 * t.den);
}

#[test]
fn sample_at_midpoint_parameter_matches_the_cubic_formula() {
    // With u = den - num = 1, num = 1, den = 2 the numerators are
    // p0 + 3 p1 + 3 p2 + p3 over a denominator of 8.
    let a = demo();
    let s = a.sample_at_t(&Ratio { num: 1, den: 2 });
    assert_eq!(s[0].den, 8);
    assert_eq!(s[0].num, 44); // 1 + 12 + 21 + 10, i.e. 5.5
    assert_eq!(s[1].num, 52); // 2 + 15 + 24 + 11, i.e. 6.5
    assert_eq!(s[2].num, 60); // 3 + 18 + 27 + 12, i.e. 7.5
    assert_eq!(s[0].num * 2, 11 * s[0].den);
    assert_eq!(s[1].num * 2, 13 * s[1].den);
    assert_eq!(s[2].num * 2, 15 * s[2].den);
}

#[test]
fn sampling_extrapolates_beyond_the_duration() {
    // The demo control points are evenly spaced, so the cubic reduces to the
    // straight line 1 + 9 t in the first variable: at t = 2 it passes 19.
    let a = demo();
    let s = a.sample(4000);
    assert_eq!(s[0].num, 19 * s[0].den);
}

#[test]
fn time_for_t_inverts_t_for_time_exactly() {
    let a = demo();
    let t = a.t_for_time(1234);
    assert_eq!(a.time_for_t(&t), 1234);
    let back = a.t_for_time(a.time_for_t(&Ratio { num: 1, den: 2 }));
    assert_eq!(back.num, 1000);
    assert_eq!(back.den, 2000);
}

#[test]
fn time_for_t_truncates_toward_zero() {
    let a = demo();
    // 2000 / 3 = 666.66..: truncation gives 666, and -666 on the other side.
    assert_eq!(a.time_for_t(&Ratio { num: 1, den: 3 }), 666);
    assert_eq!(a.time_for_t(&Ratio { num: -1, den: 3 }), -666);
}

#[test]
fn time_mapping_is_unclamped() {
    let a = demo();
    let before = a.t_for_time(-500);
    assert_eq!(before.num, -500);
    assert_eq!(before.den, 2000);
    assert_eq!(a.time_for_t(&Ratio { num: 3, den: 2 }), 3000);
}

#[test]
fn accessors_return_the_supplied_states() {
    let a = demo();
    assert_eq!(a.start(), vec![1i64, 2, 3]);
    assert_eq!(a.end(), vec![10i64, 11, 12]);
    let (c1, c2) = a.control_points();
    assert_eq!(c1, vec![4i64, 5, 6]);
    assert_eq!(c2, vec![7i64, 8, 9]);
}

#[test]
fn extreme_magnitudes_sample_without_overflow() {
    // A constant curve: every control state is the same value, so the sample
    // equals that value at every parameter, since (u + num)^3 == den^3.
    let c = MAX_STATE;
    let a: MultiVariableAnimation<2> = MultiVariableAnimation::new(
        vec![c, -c],
        vec![c, -c],
        vec![c, -c],
        vec![c, -c],
        MAX_TIME_MS,
    )
    .unwrap();
    for time in [0i64, MAX_TIME_MS, -MAX_TIME_MS] {
        let s = a.sample(time);
        assert_eq!(s[0].num, (c as i128) * s[0].den);
        assert_eq!(s[1].num, (-c as i128) * s[1].den);
    }
}

#[test]
fn one_dimensional_animation_samples_exactly() {
    let a: MultiVariableAnimation<1> =
        MultiVariableAnimation::new(vec![0i64], vec![0i64], vec![100i64], vec![100i64], 10)
            .unwrap();
    // B(t) = 3 t^2 (1 - t) * 100 + t^3 * 100; at t = 1/10 the numerator uses
    // u = 9, num = 1, den = 10: 3 * 9 * 1 * 100 + 1 * 100 = 2800 over 1000,
    // that is B(1/10) = 2.8.
    let s = a.sample(1);
    assert_eq!(s[0].den, 1000);
    assert_eq!(s[0].num, 2800);
}
