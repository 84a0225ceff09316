use vstd::prelude::*;

verus! {

/// Numerator of the damping factor after `k` distinct resistor contacts.
///
/// Every first contact with a resistor multiplies a particle's damping
/// factor by the attenuation constant 4/5 (that is, 0.8), so after `k`
/// distinct resistors the damping factor is exactly `pow4(k) / pow5(k)`.
pub open spec fn pow4(k: nat) -> nat
    decreases k,
{
    if k == 0 {
        1
    } else {
        4 * pow4((k - 1) as nat)
    }
}

/// Denominator of the damping factor after `k` distinct resistor contacts.
pub open spec fn pow5(k: nat) -> nat
    decreases k,
{
    if k == 0 {
        1
    } else {
        5 * pow5((k - 1) as nat)
    }
}

/// The damping factor always lies in (0, 1]: both sides of the fraction are
/// positive and the numerator never exceeds the denominator.
pub proof fn lemma_damping_in_unit_interval(k: nat)
    ensures
        1 <= pow4(k),
        1 <= pow5(k),
        pow4(k) <= pow5(k),
    decreases k,
{
    if k > 0 {
        lemma_damping_in_unit_interval((k - 1) as nat);
    }
}

/// `pow5` grows with its exponent.
pub proof fn lemma_pow5_monotone(k1: nat, k2: nat)
    requires
        k1 <= k2,
    ensures
        pow5(k1) <= pow5(k2),
    decreases k2 - k1,
{
    if k1 < k2 {
        lemma_pow5_monotone(k1, (k2 - 1) as nat);
        lemma_damping_in_unit_interval((k2 - 1) as nat);
    }
}

/// A particle's damping factor is monotonically non-increasing: applying
/// more resistors never raises it. Stated over the exact fractions by
/// cross-multiplication: `pow4(k2)/pow5(k2) <= pow4(k1)/pow5(k1)` whenever
/// `k1 <= k2`.
pub proof fn lemma_damping_non_increasing(k1: nat, k2: nat)
    requires
        k1 <= k2,
    ensures
        pow4(k2) * pow5(k1) <= pow4(k1) * pow5(k2),
    decreases k2 - k1,
{
    if k1 < k2 {
        let m = (k2 - 1) as nat;
        lemma_damping_non_increasing(k1, m);
        lemma_damping_in_unit_interval(k1);
        lemma_damping_in_unit_interval(m);
        assert(pow4(k2) == 4 * pow4(m));
        assert(pow5(k2) == 5 * pow5(m));
        assert(pow4(k2) * pow5(k1) <= pow4(k1) * pow5(k2)) by (nonlinear_arith)
            requires
                pow4(m) * pow5(k1) <= pow4(k1) * pow5(m),
                pow4(k2) == 4 * pow4(m),
                pow5(k2) == 5 * pow5(m),
                pow4(k1) >= 1,
                pow5(m) >= 1,
        {
        }
    }
}

/// The largest denominator `damping_fraction` ever computes still fits in a
/// `u64`.
pub proof fn lemma_pow5_at_limit()
    ensures
        pow5(27) == 7450580596923828125,
{
    reveal_with_fuel(pow5, 28);
}

/// Exact value of the damping factor after `k` distinct resistor contacts,
/// as a reduced-form fraction `(numerator, denominator) == (4^k, 5^k)`.
///
/// The bound on `k` keeps the denominator within `u64`; a particle touching
/// more distinct resistors than that renders as good as dark anyway.
pub fn damping_fraction(k: u64) -> (r: (u64, u64))
    requires
        k <= 27,
    ensures
        r.0 == pow4(k as nat),
        r.1 == pow5(k as nat),
{
    proof {
        lemma_pow5_at_limit();
    }
    let mut num: u64 = 1;
    let mut den: u64 = 1;
    let mut i: u64 = 0;
    while i < k
        invariant
            i <= k <= 27,
            num == pow4(i as nat),
            den == pow5(i as nat),
        decreases k - i,
    {
        proof {
            lemma_pow5_monotone((i + 1) as nat, 27);
            lemma_damping_in_unit_interval((i + 1) as nat);
            lemma_pow5_at_limit();
        }
        num = num * 4;
        den = den * 5;
        i = i + 1;
    }
    (num, den)
}

/// Speed scale left after `k` attenuations of a base step, each one a
/// "times 4, divided by 5" in integer arithmetic. This is the distance, in
/// thousandths of a world unit, a particle with `k` visited resistors covers
/// per tick when the base step is `step`.
pub open spec fn attenuated(step: nat, k: nat) -> nat
    decreases k,
{
    if k == 0 {
        step
    } else {
        attenuated(step, (k - 1) as nat) * 4 / 5
    }
}

/// Executable attenuation: applies the 4/5 scale `k` times to the base step;
/// the result never exceeds the base step.
pub fn attenuate_speed(step: u64, k: usize) -> (r: u64)
    requires
        step <= u64::MAX / 4,
    ensures
        r == attenuated(step as nat, k as nat),
        r <= step,
{
    let mut v: u64 = step;
    let mut i: usize = 0;
    while i < k
        invariant
            i <= k,
            step <= u64::MAX / 4,
            v == attenuated(step as nat, i as nat),
            v <= step,
        decreases k - i,
    {
        v = v * 4 / 5;
        i = i + 1;
    }
    v
}

} // verus!
