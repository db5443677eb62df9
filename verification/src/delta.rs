use vstd::prelude::*;

verus! {

/// Quotient of `a` by `d` rounded to the nearest integer, ties away from
/// zero, for `d > 0`: the integer a scaled sample difference rounds to.
pub open spec fn round_div(a: int, d: int) -> int {
    if a >= 0 {
        (a + d / 2) / d
    } else {
        -((-a + d / 2) / d)
    }
}

/// The scaled difference between the remembered sample and a new one under
/// the exact rational scale `num / den`, rounded to the nearest integer,
/// ties away from zero.
pub open spec fn scaled_delta(prev: int, value: int, num: int, den: int) -> int {
    round_div((value - prev) * num, den)
}

/// One step of the jitter filter: from the remembered sample `prev` and a new
/// raw sample `value`, the emitted delta (if any) and the sample remembered
/// afterwards. A zero on either side means "at rest or first sample": nothing
/// is emitted and the new sample is recorded. A delta that rounds to zero is
/// suppressed and the history kept, so small movements accumulate; otherwise
/// the delta is emitted and the history reset to the new sample.
pub open spec fn axis_step(prev: int, value: int, num: int, den: int) -> (Option<int>, int) {
    if value == 0 || prev == 0 {
        (None, value)
    } else if scaled_delta(prev, value, num, den) == 0 {
        (None, prev)
    } else {
        (Some(scaled_delta(prev, value, num, den)), value)
    }
}

/// Computes `scaled_delta` with exact integer arithmetic.
pub fn compute_delta(prev: i32, value: i32, num: i32, den: i32) -> (r: i32)
    requires
        den > 0,
        -0x7fff_ffff <= scaled_delta(prev as int, value as int, num as int, den as int)
            <= 0x7fff_ffff,
    ensures
        r as int == scaled_delta(prev as int, value as int, num as int, den as int),
{
    let diff: i64 = value as i64 - prev as i64;
    proof {
        assert(-0x8000_0000_0000_0000 <= diff * num < 0x8000_0000_0000_0000_0000_0000)
            by (nonlinear_arith)
            requires
                -0x1_0000_0000 < diff < 0x1_0000_0000,
                -0x8000_0000 <= num < 0x8000_0000,
        ;
        vstd::arithmetic::div_mod::lemma_div_pos_is_pos(den as int, 2);
    }
    let prod: i128 = (diff as i128) * (num as i128);
    let half: u128 = (den as u128) / 2;
    if prod >= 0 {
        let mag: u128 = (prod as u128) + half;
        let q: u128 = mag / (den as u128);
        proof {
            assert(q == round_div(prod as int, den as int));
        }
        q as i32
    } else {
        let mag: u128 = ((-prod) as u128) + half;
        let q: u128 = mag / (den as u128);
        proof {
            assert(q == -round_div(prod as int, den as int));
        }
        let qi: i32 = q as i32;
        -qi
    }
}

/// A bound on the dividend bounds the rounded quotient by the rounded
/// quotient of the bound.
pub proof fn lemma_scaled_delta_bound(prev: int, value: int, num: int, den: int, b: int)
    requires
        den > 0,
        0 <= b,
        -b <= (value - prev) * num <= b,
    ensures
        -((b + den / 2) / den) <= scaled_delta(prev, value, num, den) <= (b + den / 2) / den,
{
    let a = (value - prev) * num;
    vstd::arithmetic::div_mod::lemma_div_pos_is_pos(den, 2);
    vstd::arithmetic::div_mod::lemma_div_pos_is_pos(b + den / 2, den);
    if a >= 0 {
        vstd::arithmetic::div_mod::lemma_div_pos_is_pos(a + den / 2, den);
        vstd::arithmetic::div_mod::lemma_div_is_ordered(a + den / 2, b + den / 2, den);
    } else {
        vstd::arithmetic::div_mod::lemma_div_pos_is_pos(-a + den / 2, den);
        vstd::arithmetic::div_mod::lemma_div_is_ordered(-a + den / 2, b + den / 2, den);
    }
}

/// A repeated raw sample never produces a delta, and leaves the remembered
/// sample as it was.
pub proof fn lemma_repeated_sample_silent(v: int, num: int, den: int)
    requires
        den > 0,
    ensures
        axis_step(v, v, num, den) == (None::<int>, v),
{
    if v != 0 {
        assert((v - v) * num == 0);
        vstd::arithmetic::div_mod::lemma_div_pos_is_pos(den, 2);
        if den > 1 {
            vstd::arithmetic::div_mod::lemma_div_decreases(den, 2);
        }
        vstd::arithmetic::div_mod::lemma_basic_div(den / 2, den);
        assert(round_div(0, den) == 0);
    }
}

/// At rest or on a first sample the filter emits nothing and only records the
/// sample: a raw run `0, 0, v` produces no output for any `v`.
pub proof fn lemma_rest_and_first_sample_silent(prev: int, value: int, num: int, den: int)
    requires
        value == 0 || prev == 0,
    ensures
        axis_step(prev, value, num, den) == (None::<int>, value),
{
}

/// Away from rest, sub-threshold motion is suppressed with the history kept,
/// and motion whose scaled delta is nonzero yields exactly that one delta with
/// the history reset to the newest sample.
pub proof fn lemma_threshold(prev: int, value: int, num: int, den: int)
    requires
        prev != 0,
        value != 0,
    ensures
        scaled_delta(prev, value, num, den) == 0 ==> axis_step(prev, value, num, den) == (
        None::<int>,
        prev,
        ),
        scaled_delta(prev, value, num, den) != 0 ==> axis_step(prev, value, num, den) == (
        Some(scaled_delta(prev, value, num, den)),
        value,
        ),
{
}

} // verus!
