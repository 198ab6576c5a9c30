//! A multi-variable animation: an `N`-dimensional state moved from a start
//! value to an end value over a fixed duration, shaped by two control states
//! through a cubic Bezier curve.
//!
//! Times are `i64` millisecond counts. The curve parameter `t` is an exact
//! `Ratio` of integers: `t_for_time` maps an elapsed time to the ratio
//! `elapsed / duration`, unclamped, so times outside `[0, duration]`
//! extrapolate the curve. `time_for_t` maps a parameter back to milliseconds,
//! truncating toward zero (the documented rounding rule of this crate).

use vstd::arithmetic::div_mod::{
    lemma_div_multiples_vanish, lemma_div_nonincreasing, lemma_fundamental_div_mod,
    lemma_mod_bound,
};
use vstd::math::abs;
use vstd::prelude::*;

use crate::vector::{lemma_from_components_round_trip, VectorND};

verus! {

/// The largest state component magnitude the exact curve arithmetic admits.
pub const MAX_STATE: i64 = 1073741824;

/// The largest duration, and largest elapsed-time magnitude, in milliseconds
/// that the exact curve arithmetic admits (about six days).
pub const MAX_TIME_MS: i64 = 536870912;

/// Every component of `s` stays within the magnitude the curve arithmetic
/// admits.
pub open spec fn bounded(s: Seq<i64>) -> bool {
    forall|i: int| 0 <= i < s.len() ==> -MAX_STATE <= #[trigger] s[i] <= MAX_STATE
}

/// An exact ratio of two integers, `num / den`, with a positive denominator.
/// Ratios are not normalised; equality of the values they stand for is
/// `ratio_eq`, comparison of cross products.
#[derive(Debug, Clone, Copy)]
pub struct Ratio {
    pub num: i128,
    pub den: i128,
}

impl Ratio {
    /// A ratio stands for a value only when its denominator is positive.
    pub open spec fn wf(self) -> bool {
        0 < self.den
    }
}

/// Whether the ratios `an / ad` and `bn / bd` stand for the same value,
/// stated over cross products so that nothing need be normalised.
pub open spec fn ratio_eq(an: int, ad: int, bn: int, bd: int) -> bool {
    an * bd == bn * ad
}

/// Integer division truncating toward zero, the crate's rounding rule for
/// mapping a curve parameter back to whole milliseconds.
pub open spec fn div_trunc(a: int, b: int) -> int {
    if a >= 0 {
        a / b
    } else {
        -((-a) / b)
    }
}

/// `|a * b| <= bound_a * bound_b` whenever `|a| <= bound_a` and
/// `|b| <= bound_b`: the bound used to rule out overflow in the exact curve
/// arithmetic.
pub proof fn lemma_abs_mul_le(a: int, b: int, bound_a: int, bound_b: int)
    requires
        -bound_a <= a <= bound_a,
        -bound_b <= b <= bound_b,
        0 <= bound_a,
        0 <= bound_b,
    ensures
        -(bound_a * bound_b) <= a * b <= bound_a * bound_b,
{
    assert(-(bound_a * bound_b) <= a * b <= bound_a * bound_b) by (nonlinear_arith)
        requires
            -bound_a <= a <= bound_a,
            -bound_b <= b <= bound_b,
            0 <= bound_a,
            0 <= bound_b,
    ;
}

/// Division truncating toward zero, computed through unsigned division on
/// magnitudes. The result never grows past the dividend's magnitude.
fn div_trunc_i128(a: i128, b: i128) -> (r: i128)
    requires
        0 < b,
        -i128::MAX <= a,
    ensures
        r == div_trunc(a as int, b as int),
        a >= 0 ==> 0 <= r <= a,
        a < 0 ==> a <= r <= 0,
{
    if a >= 0 {
        let q: u128 = (a as u128) / (b as u128);
        proof {
            lemma_div_nonincreasing(a as int, b as int);
        }
        q as i128
    } else {
        let m: i128 = -a;
        let q: u128 = (m as u128) / (b as u128);
        proof {
            lemma_div_nonincreasing(m as int, b as int);
        }
        -(q as i128)
    }
}

/// Truncating `(time_ms * dur) / dur` gives back `time_ms` exactly: mapping an
/// elapsed time to a curve parameter and the parameter back to a time loses
/// nothing, for every time and every positive duration.
pub proof fn lemma_time_round_trip(time_ms: int, dur: int)
    requires
        0 < dur,
    ensures
        div_trunc(time_ms * dur, dur) == time_ms,
{
    if time_ms >= 0 {
        assert(time_ms * dur == dur * time_ms) by (nonlinear_arith);
        assert(time_ms * dur >= 0) by (nonlinear_arith)
            requires
                time_ms >= 0,
                dur > 0,
        ;
        lemma_div_multiples_vanish(time_ms, dur);
    } else {
        assert(-(time_ms * dur) == dur * (-time_ms)) by (nonlinear_arith);
        assert(time_ms * dur < 0) by (nonlinear_arith)
            requires
                time_ms < 0,
                dur > 0,
        ;
        lemma_div_multiples_vanish(-time_ms, dur);
    }
}

/// The numerator of the cubic Bezier curve point over one state variable, at
/// the parameter `num / den`: the curve value is this numerator over `den`
/// cubed. With `u = den - num`, this is the classic
/// `u^3 p0 + 3 u^2 num p1 + 3 u num^2 p2 + num^3 p3`.
pub open spec fn bez_num(p0: int, p1: int, p2: int, p3: int, num: int, den: int) -> int {
    let u: int = den - num;
    ((u * u) * u) * p0 + (3 * ((u * u) * num)) * p1 + (3 * ((u * num) * num)) * p2 + (
    (num * num) * num) * p3
}

/// One state variable of a curve point, evaluated exactly.
fn bez_component(p0: i64, p1: i64, p2: i64, p3: i64, num: i128, den: i128) -> (r: i128)
    requires
        -MAX_STATE <= p0 <= MAX_STATE,
        -MAX_STATE <= p1 <= MAX_STATE,
        -MAX_STATE <= p2 <= MAX_STATE,
        -MAX_STATE <= p3 <= MAX_STATE,
        0 < den <= MAX_TIME_MS as i128,
        -(MAX_TIME_MS as i128) <= num <= MAX_TIME_MS as i128,
    ensures
        r == bez_num(p0 as int, p1 as int, p2 as int, p3 as int, num as int, den as int),
{
    let ghost bt: int = MAX_TIME_MS as int;
    let ghost bu: int = 2 * bt;
    let ghost bp: int = MAX_STATE as int;
    proof {
        assert(bt == 0x20000000int);
        assert(bu == 0x40000000int);
        assert(bp == 0x40000000int);
    }
    let u: i128 = den - num;
    proof {
        lemma_abs_mul_le(u as int, u as int, bu, bu);
    }
    let uu: i128 = u * u;
    proof {
        lemma_abs_mul_le(uu as int, u as int, bu * bu, bu);
    }
    let uuu: i128 = uu * u;
    proof {
        lemma_abs_mul_le(uuu as int, p0 as int, (bu * bu) * bu, bp);
    }
    let q0: i128 = uuu * (p0 as i128);
    proof {
        lemma_abs_mul_le(uu as int, num as int, bu * bu, bt);
    }
    let uun: i128 = uu * num;
    let t1: i128 = 3 * uun;
    proof {
        lemma_abs_mul_le(t1 as int, p1 as int, 3 * ((bu * bu) * bt), bp);
    }
    let q1: i128 = t1 * (p1 as i128);
    proof {
        lemma_abs_mul_le(u as int, num as int, bu, bt);
    }
    let un: i128 = u * num;
    proof {
        lemma_abs_mul_le(un as int, num as int, bu * bt, bt);
    }
    let unn: i128 = un * num;
    let t2: i128 = 3 * unn;
    proof {
        lemma_abs_mul_le(t2 as int, p2 as int, 3 * ((bu * bt) * bt), bp);
    }
    let q2: i128 = t2 * (p2 as i128);
    proof {
        lemma_abs_mul_le(num as int, num as int, bt, bt);
    }
    let nn: i128 = num * num;
    proof {
        lemma_abs_mul_le(nn as int, num as int, bt * bt, bt);
    }
    let nnn: i128 = nn * num;
    proof {
        lemma_abs_mul_le(nnn as int, p3 as int, (bt * bt) * bt, bp);
    }
    let q3: i128 = nnn * (p3 as i128);
    q0 + q1 + q2 + q3
}

/// At parameter 0 the curve numerator is `den^3 * p0` and at parameter
/// `den / den = 1` it is `den^3 * p3`: over the denominator `den^3` these are
/// exactly the start and the end state — endpoint evaluation is exact.
pub proof fn lemma_sample_endpoints(p0: int, p1: int, p2: int, p3: int, den: int)
    requires
        0 < den,
    ensures
        bez_num(p0, p1, p2, p3, 0, den) == ((den * den) * den) * p0,
        bez_num(p0, p1, p2, p3, den, den) == ((den * den) * den) * p3,
        ratio_eq(bez_num(p0, p1, p2, p3, 0, den), (den * den) * den, p0, 1),
        ratio_eq(bez_num(p0, p1, p2, p3, den, den), (den * den) * den, p3, 1),
{
    let d3: int = (den * den) * den;
    assert((((den - 0) * (den - 0)) * (den - 0)) * p0 + (3 * (((den - 0) * (den - 0)) * 0)) * p1 + (
    3 * (((den - 0) * 0) * 0)) * p2 + ((0 * 0) * 0) * p3 == d3 * p0) by (nonlinear_arith)
        requires
            d3 == (den * den) * den,
    ;
    assert(bez_num(p0, p1, p2, p3, 0, den) == d3 * p0);
    assert((((den - den) * (den - den)) * (den - den)) * p0 + (3 * (((den - den) * (den - den))
        * den)) * p1 + (3 * (((den - den) * den) * den)) * p2 + ((den * den) * den) * p3 == d3 * p3)
        by (nonlinear_arith)
        requires
            d3 == (den * den) * den,
    ;
    assert(bez_num(p0, p1, p2, p3, den, den) == d3 * p3);
    assert((d3 * p0) * 1 == p0 * d3) by (nonlinear_arith);
    assert((d3 * p3) * 1 == p3 * d3) by (nonlinear_arith);
}

/// Mapping a parameter `num / den` to whole milliseconds and back moves it by
/// less than one millisecond's worth of parameter: the truncated time `q`
/// satisfies `|q * den - num * dur| < den`, so `|q / dur - num / den| < 1 / dur`.
pub proof fn lemma_param_round_trip(num: int, den: int, dur: int)
    requires
        0 < den,
        0 < dur,
    ensures
        abs(div_trunc(num * dur, den) * den - num * dur) < den,
{
    let a = num * dur;
    lemma_mod_bound(a, den);
    lemma_mod_bound(-a, den);
    if a >= 0 {
        let q = a / den;
        lemma_fundamental_div_mod(a, den);
        assert(den * q == q * den) by (nonlinear_arith);
    } else {
        let q = -((-a) / den);
        lemma_fundamental_div_mod(-a, den);
        assert(den * ((-a) / den) == -(q * den)) by (nonlinear_arith)
            requires
                q == -((-a) / den),
        ;
    }
}

/// Why construction of an animation fails: the duration must be positive for
/// the time-to-parameter mapping to be meaningful.
#[derive(Debug, Clone, Copy, PartialEq, Eq, Structural)]
pub enum AnimationError {
    NonPositiveDuration,
}

/// A single bounded motion of an `N`-dimensional state from a start value to
/// an end value, shaped by two control states, over a fixed positive duration
/// in milliseconds. A value is immutable once constructed and may be sampled
/// arbitrarily often.
#[derive(Debug, Clone)]
pub struct MultiVariableAnimation<const N: usize> {
    pub start: VectorND<N>,
    pub control_1: VectorND<N>,
    pub control_2: VectorND<N>,
    pub end: VectorND<N>,
    pub duration_ms: i64,
}

impl<const N: usize> MultiVariableAnimation<N> {
    /// The type's invariant: every stored state has dimension `N` and stays
    /// within the magnitude the exact curve arithmetic admits, and the
    /// duration is positive and within the admitted range.
    pub open spec fn wf(self) -> bool {
        &&& self.start.wf()
        &&& self.control_1.wf()
        &&& self.control_2.wf()
        &&& self.end.wf()
        &&& bounded(self.start@)
        &&& bounded(self.control_1@)
        &&& bounded(self.control_2@)
        &&& bounded(self.end@)
        &&& 0 < self.duration_ms <= MAX_TIME_MS
    }

    /// Builds the animation from the four states and a duration. Fails
    /// explicitly, rather than later dividing by zero, exactly when the
    /// duration is not positive. The magnitude bounds in `requires` are
    /// machine limits of the exact arithmetic, not rules of the domain.
    pub fn new(
        start: Vec<i64>,
        control_1: Vec<i64>,
        control_2: Vec<i64>,
        end: Vec<i64>,
        duration_ms: i64,
    ) -> (r: Result<Self, AnimationError>)
        requires
            start@.len() == N,
            control_1@.len() == N,
            control_2@.len() == N,
            end@.len() == N,
            bounded(start@),
            bounded(control_1@),
            bounded(control_2@),
            bounded(end@),
            duration_ms <= MAX_TIME_MS,
        ensures
            r is Ok <==> 0 < duration_ms,
            r is Err ==> r->Err_0 == AnimationError::NonPositiveDuration,
            r is Ok ==> (r->Ok_0).wf(),
            r is Ok ==> (r->Ok_0).start@ == start@,
            r is Ok ==> (r->Ok_0).control_1@ == control_1@,
            r is Ok ==> (r->Ok_0).control_2@ == control_2@,
            r is Ok ==> (r->Ok_0).end@ == end@,
            r is Ok ==> (r->Ok_0).duration_ms == duration_ms,
    {
        if duration_ms <= 0 {
            return Err(AnimationError::NonPositiveDuration);
        }
        proof {
            lemma_from_components_round_trip(start@, N as nat);
            lemma_from_components_round_trip(control_1@, N as nat);
            lemma_from_components_round_trip(control_2@, N as nat);
            lemma_from_components_round_trip(end@, N as nat);
        }
        Ok(
            MultiVariableAnimation {
                start: VectorND::from_components(start.as_slice()),
                control_1: VectorND::from_components(control_1.as_slice()),
                control_2: VectorND::from_components(control_2.as_slice()),
                end: VectorND::from_components(end.as_slice()),
                duration_ms,
            },
        )
    }

    /// The curve parameter for an elapsed time: the exact ratio
    /// `time_ms / duration_ms`. Unclamped: times outside `[0, duration]` give
    /// parameters outside `[0, 1]`, which extrapolate the curve.
    pub fn t_for_time(&self, time_ms: i64) -> (r: Ratio)
        requires
            self.wf(),
        ensures
            r.wf(),
            r.num == time_ms,
            r.den == self.duration_ms,
    {
        Ratio { num: time_ms as i128, den: self.duration_ms as i128 }
    }

    /// The elapsed time that best corresponds to a curve parameter:
    /// `t * duration_ms`, truncated toward zero to whole milliseconds.
    /// `lemma_time_round_trip` and `lemma_param_round_trip` bound what the
    /// truncation can lose.
    pub fn time_for_t(&self, t: &Ratio) -> (r: i64)
        requires
            self.wf(),
            t.wf(),
            -(MAX_TIME_MS as i128) <= t.num <= MAX_TIME_MS as i128,
        ensures
            r == div_trunc((t.num as int) * (self.duration_ms as int), t.den as int),
    {
        proof {
            lemma_abs_mul_le(
                t.num as int,
                self.duration_ms as int,
                MAX_TIME_MS as int,
                MAX_TIME_MS as int,
            );
        }
        let prod: i128 = t.num * (self.duration_ms as i128);
        let q: i128 = div_trunc_i128(prod, t.den);
        q as i64
    }

    /// The state at curve parameter `t`, one exact ratio per state variable:
    /// component `i` is `bez_num(..) / den^3`, the cubic Bezier curve point
    /// over the stored control states.
    pub fn sample_at_t(&self, t: &Ratio) -> (r: Vec<Ratio>)
        requires
            self.wf(),
            t.wf(),
            t.den <= MAX_TIME_MS as i128,
            -(MAX_TIME_MS as i128) <= t.num <= MAX_TIME_MS as i128,
        ensures
            r@.len() == N,
            forall|i: int| 0 <= i < N ==> (#[trigger] r@[i]).wf(),
            forall|i: int| 0 <= i < N ==> (#[trigger] r@[i]).den == (t.den * t.den) * t.den,
            forall|i: int| 0 <= i < N ==> (#[trigger] r@[i]).num == bez_num(
                self.start@[i] as int,
                self.control_1@[i] as int,
                self.control_2@[i] as int,
                self.end@[i] as int,
                t.num as int,
                t.den as int,
            ),
    {
        proof {
            lemma_abs_mul_le(t.den as int, t.den as int, MAX_TIME_MS as int, MAX_TIME_MS as int);
        }
        let dd: i128 = t.den * t.den;
        proof {
            lemma_abs_mul_le(
                dd as int,
                t.den as int,
                (MAX_TIME_MS as int) * (MAX_TIME_MS as int),
                MAX_TIME_MS as int,
            );
            assert((t.den * t.den) * t.den > 0) by (nonlinear_arith)
                requires
                    t.den > 0int,
            ;
        }
        let d3: i128 = dd * t.den;
        let mut out: Vec<Ratio> = Vec::new();
        let mut i: usize = 0;
        while i < N
            invariant
                self.wf(),
                t.wf(),
                t.den <= MAX_TIME_MS as i128,
                -(MAX_TIME_MS as i128) <= t.num <= MAX_TIME_MS as i128,
                d3 == (t.den * t.den) * t.den,
                0 < d3,
                i <= N,
                out@.len() == i,
                forall|j: int| 0 <= j < i ==> (#[trigger] out@[j]).wf(),
                forall|j: int| 0 <= j < i ==> (#[trigger] out@[j]).den == (t.den * t.den) * t.den,
                forall|j: int| 0 <= j < i ==> (#[trigger] out@[j]).num == bez_num(
                    self.start@[j] as int,
                    self.control_1@[j] as int,
                    self.control_2@[j] as int,
                    self.end@[j] as int,
                    t.num as int,
                    t.den as int,
                ),
            decreases N - i,
        {
            let p0: i64 = self.start.get(i);
            let p1: i64 = self.control_1.get(i);
            let p2: i64 = self.control_2.get(i);
            let p3: i64 = self.end.get(i);
            let numerator: i128 = bez_component(p0, p1, p2, p3, t.num, t.den);
            out.push(Ratio { num: numerator, den: d3 });
            i = i + 1;
        }
        out
    }

    /// The state at elapsed time `time_ms`: the curve point at the parameter
    /// `time_ms / duration_ms`. At time 0 this is exactly the start state; at
    /// `duration_ms`, exactly the end state (`lemma_sample_endpoints`).
    pub fn sample(&self, time_ms: i64) -> (r: Vec<Ratio>)
        requires
            self.wf(),
            -MAX_TIME_MS <= time_ms <= MAX_TIME_MS,
        ensures
            r@.len() == N,
            forall|i: int| 0 <= i < N ==> (#[trigger] r@[i]).wf(),
            forall|i: int| 0 <= i < N ==> (#[trigger] r@[i]).den == (self.duration_ms
                * self.duration_ms) * self.duration_ms,
            forall|i: int| 0 <= i < N ==> (#[trigger] r@[i]).num == bez_num(
                self.start@[i] as int,
                self.control_1@[i] as int,
                self.control_2@[i] as int,
                self.end@[i] as int,
                time_ms as int,
                self.duration_ms as int,
            ),
            time_ms == 0 ==> forall|i: int| 0 <= i < N ==> ratio_eq(
                (#[trigger] r@[i]).num as int,
                r@[i].den as int,
                self.start@[i] as int,
                1,
            ),
            time_ms == self.duration_ms ==> forall|i: int| 0 <= i < N ==> ratio_eq(
                (#[trigger] r@[i]).num as int,
                r@[i].den as int,
                self.end@[i] as int,
                1,
            ),
    {
        let t = self.t_for_time(time_ms);
        let out = self.sample_at_t(&t);
        proof {
            if time_ms == 0 || time_ms == self.duration_ms {
                assert forall|i: int| 0 <= i < N implies ratio_eq(
                    (#[trigger] out@[i]).num as int,
                    out@[i].den as int,
                    if time_ms == 0 {
                        self.start@[i] as int
                    } else {
                        self.end@[i] as int
                    },
                    1,
                ) by {
                    lemma_sample_endpoints(
                        self.start@[i] as int,
                        self.control_1@[i] as int,
                        self.control_2@[i] as int,
                        self.end@[i] as int,
                        self.duration_ms as int,
                    );
                }
            }
        }
        out
    }

    /// The originally supplied start state.
    pub fn start(&self) -> (r: Vec<i64>)
        requires
            self.wf(),
        ensures
            r@ == self.start@,
    {
        self.start.to_vec()
    }

    /// The originally supplied end state.
    pub fn end(&self) -> (r: Vec<i64>)
        requires
            self.wf(),
        ensures
            r@ == self.end@,
    {
        self.end.to_vec()
    }

    /// The originally supplied control states, in order.
    pub fn control_points(&self) -> (r: (Vec<i64>, Vec<i64>))
        requires
            self.wf(),
        ensures
            r.0@ == self.control_1@,
            r.1@ == self.control_2@,
    {
        (self.control_1.to_vec(), self.control_2.to_vec())
    }
}

} // verus!
