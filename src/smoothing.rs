//! The coarse exponential moving average behind the consensus seed.
use vstd::prelude::*;

verus! {

/// Divisor of the moving average: a sample moves the accumulator by
/// `1 / SMOOTHING_FACTOR` of the distance between them.
pub const SMOOTHING_FACTOR: i64 = 2000;

/// Integer division truncating toward zero, for a positive divisor.
pub open spec fn trunc_div(a: int, d: int) -> int {
    if a >= 0 {
        a / d
    } else {
        -((-a) / d)
    }
}

/// The accumulator after one sample: `old + (sample - old) / 2000`,
/// the division truncating toward zero.
pub open spec fn smoothed(old: i64, sample: i32) -> int {
    old + trunc_div(sample - old, SMOOTHING_FACTOR as int)
}

/// The accumulator after `n` equal samples.
pub open spec fn smoothed_n(old: i64, sample: i32, n: nat) -> i64
    decreases n,
{
    if n == 0 {
        old
    } else {
        smoothed(smoothed_n(old, sample, (n - 1) as nat), sample) as i64
    }
}

/// One step stays between the accumulator and the sample.
proof fn lemma_smoothed_between(old: i64, sample: i32)
    ensures
        old <= sample ==> old <= smoothed(old, sample) <= sample,
        sample <= old ==> sample <= smoothed(old, sample) <= old,
        (sample - old >= SMOOTHING_FACTOR || old - sample >= SMOOTHING_FACTOR) ==> smoothed(
            old,
            sample,
        ) != old,
        (sample - old < SMOOTHING_FACTOR && old - sample < SMOOTHING_FACTOR) ==> smoothed(
            old,
            sample,
        ) == old,
{
    let d = sample - old;
    if d >= 0 {
        assert(0 <= d / 2000 <= d) by (nonlinear_arith)
            requires
                d >= 0,
        ;
        assert(d >= 2000 ==> d / 2000 >= 1) by (nonlinear_arith);
        assert(d < 2000 ==> d / 2000 == 0) by (nonlinear_arith)
            requires
                d >= 0,
        ;
    } else {
        let e = -d;
        assert(0 <= e / 2000 <= e) by (nonlinear_arith)
            requires
                e >= 0,
        ;
        assert(e >= 2000 ==> e / 2000 >= 1) by (nonlinear_arith);
        assert(e < 2000 ==> e / 2000 == 0) by (nonlinear_arith)
            requires
                e >= 0,
        ;
    }
}

/// The smoothing update.
///
/// A sample moves the accumulator toward it, never past it; samples closer
/// than `SMOOTHING_FACTOR` leave it where it is.
pub fn smooth(old: i64, sample: i32) -> (r: i64)
    ensures
        r == smoothed(old, sample),
{
    proof {
        lemma_smoothed_between(old, sample);
    }
    let d: i128 = sample as i128 - old as i128;
    let step: i128 = if d >= 0 {
        d / 2000
    } else {
        -((-d) / 2000)
    };
    (old as i128 + step) as i64
}

/// A sample at least `SMOOTHING_FACTOR` away moves the accumulator strictly
/// toward it without passing it; a nearer one leaves it unchanged.
pub proof fn lemma_smoothing_step(old: i64, sample: i32)
    ensures
        old <= sample ==> old <= smoothed(old, sample) <= sample,
        sample <= old ==> sample <= smoothed(old, sample) <= old,
        sample - old >= SMOOTHING_FACTOR ==> old < smoothed(old, sample),
        old - sample >= SMOOTHING_FACTOR ==> smoothed(old, sample) < old,
        (sample - old < SMOOTHING_FACTOR && old - sample < SMOOTHING_FACTOR) ==> smoothed(
            old,
            sample,
        ) == old,
{
    lemma_smoothed_between(old, sample);
}

/// Repeating one sample: the accumulator moves monotonically toward it,
/// never passes it, and each step while it is at least `SMOOTHING_FACTOR`
/// away moves it strictly.
pub proof fn lemma_smoothing_converges(old: i64, sample: i32, n: nat)
    ensures
        old <= sample ==> old <= smoothed_n(old, sample, n) <= smoothed_n(old, sample, n + 1)
            <= sample,
        sample <= old ==> sample <= smoothed_n(old, sample, n + 1) <= smoothed_n(old, sample, n)
            <= old,
        sample - smoothed_n(old, sample, n) >= SMOOTHING_FACTOR ==> smoothed_n(old, sample, n)
            < smoothed_n(old, sample, n + 1),
        smoothed_n(old, sample, n) - sample >= SMOOTHING_FACTOR ==> smoothed_n(old, sample, n + 1)
            < smoothed_n(old, sample, n),
    decreases n,
{
    if n > 0 {
        lemma_smoothing_converges(old, sample, (n - 1) as nat);
    }
    lemma_smoothed_between(smoothed_n(old, sample, n), sample);
}

} // verus!
