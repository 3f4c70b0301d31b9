//! Facts about the binary64 encoding that the comparisons rest on.

use vstd::arithmetic::power2::{lemma_pow2_adds, lemma_pow2_pos, lemma_pow2_strictly_increases, pow2};
use vstd::prelude::*;

use crate::ieee::{magnitude_of, Real, FRACTION_SPAN};

verus! {

/// A larger payload denotes a larger magnitude, and equal magnitudes come
/// only from equal payloads: sign aside, the numbers are ordered as their
/// bit patterns are.
pub proof fn lemma_magnitude_orders_like_payload(p: nat, q: nat)
    ensures
        p < q ==> magnitude_of(p) < magnitude_of(q),
        p == q ==> magnitude_of(p) == magnitude_of(q),
{
    if p < q {
        let span = FRACTION_SPAN as nat;
        let ep = p / span;
        let fp = p % span;
        let eq = q / span;
        let fq = q % span;
        assert(p == ep * span + fp && q == eq * span + fq) by (nonlinear_arith)
            requires
                span > 0,
                ep == p / span,
                fp == p % span,
                eq == q / span,
                fq == q % span,
        ;
        assert(ep <= eq) by (nonlinear_arith)
            requires
                span > 0,
                p < q,
                ep == p / span,
                eq == q / span,
        ;
        if ep == eq {
            assert(fp < fq);
            if ep > 0 {
                let w = pow2((ep - 1) as nat);
                lemma_pow2_pos((ep - 1) as nat);
                assert((span + fp) * w < (span + fq) * w) by (nonlinear_arith)
                    requires
                        fp < fq,
                        w > 0,
                ;
            }
        } else {
            let wq = pow2((eq - 1) as nat);
            lemma_pow2_pos((eq - 1) as nat);
            assert(span * wq <= (span + fq) * wq) by (nonlinear_arith)
                requires
                    wq > 0,
            ;
            if ep == 0 {
                assert(span <= span * wq) by (nonlinear_arith)
                    requires
                        wq > 0,
                ;
            } else {
                let wp = pow2((ep - 1) as nat);
                lemma_pow2_pos((ep - 1) as nat);
                lemma_pow2_adds(1, (ep - 1) as nat);
                assert(pow2(1) == 2) by {
                    vstd::arithmetic::power2::lemma2_to64();
                }
                assert(pow2(ep) == 2 * wp);
                if ep < eq - 1 {
                    lemma_pow2_strictly_increases(ep, (eq - 1) as nat);
                }
                assert(2 * wp <= wq);
                assert((span + fp) * wp < span * wq) by (nonlinear_arith)
                    requires
                        fp < span,
                        wp > 0,
                        2 * wp <= wq,
                ;
            }
        }
    }
}

/// `<` read off the bit patterns: between two numbers of one sign the
/// payloads decide, reversed where both are negative; a negative number is
/// below a positive one unless both are zeros.
pub proof fn lemma_below_on_bits(a: Real, b: Real)
    ensures
        a.below(b) <==> !a.nan() && !b.nan() && if a.negative() {
            if b.negative() {
                b.payload() < a.payload()
            } else {
                a.payload() != 0 || b.payload() != 0
            }
        } else {
            !b.negative() && a.payload() < b.payload()
        },
{
    lemma_magnitude_orders_like_payload(a.payload(), b.payload());
    lemma_magnitude_orders_like_payload(b.payload(), a.payload());
    lemma_magnitude_orders_like_payload(0, a.payload());
    lemma_magnitude_orders_like_payload(0, b.payload());
}

/// `<=` read off the bit patterns.
pub proof fn lemma_at_most_on_bits(a: Real, b: Real)
    ensures
        a.at_most(b) <==> !a.nan() && !b.nan() && if a.negative() {
            !b.negative() || b.payload() <= a.payload()
        } else if b.negative() {
            a.payload() == 0 && b.payload() == 0
        } else {
            a.payload() <= b.payload()
        },
{
    lemma_magnitude_orders_like_payload(a.payload(), b.payload());
    lemma_magnitude_orders_like_payload(b.payload(), a.payload());
    lemma_magnitude_orders_like_payload(0, a.payload());
    lemma_magnitude_orders_like_payload(0, b.payload());
}

/// `==` read off the bit patterns: the same pattern, or two zeros.
pub proof fn lemma_equal_on_bits(a: Real, b: Real)
    ensures
        a.equal(b) <==> !a.nan() && !b.nan() && (a.bits == b.bits || (a.payload() == 0
            && b.payload() == 0)),
{
    lemma_magnitude_orders_like_payload(a.payload(), b.payload());
    lemma_magnitude_orders_like_payload(b.payload(), a.payload());
    lemma_magnitude_orders_like_payload(0, a.payload());
    lemma_magnitude_orders_like_payload(0, b.payload());
}

/// A cap holds: whatever `x` is, a NaN included, `x.minimum(cap)` is a
/// number no larger than the number `cap`. It is `x` itself where `x` is
/// at most `cap`, and `cap` everywhere else.
pub proof fn lemma_minimum_caps(x: Real, cap: Real)
    requires
        !cap.nan(),
    ensures
        !x.minimum(cap).nan(),
        x.minimum(cap).at_most(cap),
        x.at_most(cap) ==> x.minimum(cap) == x,
        !x.at_most(cap) ==> x.minimum(cap) == cap,
{
}

/// A positive normal pattern with exponent field `e <= 1075` whose
/// significand `2^52 + f` is `n * 2^k`, where `k = 1075 - e`, denotes the
/// integer `n`.
pub proof fn lemma_denotes_integer(x: Real, n: nat, k: nat)
    requires
        !x.negative(),
        x.finite(),
        k < 1075,
        x.payload() / (FRACTION_SPAN as nat) + k == 1075,
        FRACTION_SPAN + x.payload() % (FRACTION_SPAN as nat) == n * pow2(k),
    ensures
        x.denotes(n as int),
{
    let e = x.payload() / (FRACTION_SPAN as nat);
    let w = pow2((e - 1) as nat);
    lemma_pow2_adds(k, (e - 1) as nat);
    assert(pow2(k) * w == pow2(1074));
    assert((n * pow2(k)) * w == n * (pow2(k) * w)) by (nonlinear_arith);
    assert(x.magnitude() == (FRACTION_SPAN as nat + x.payload() % (FRACTION_SPAN as nat)) * w);
}

/// A positive pattern with exponent field `1075 + j` denotes the integer
/// `(2^52 + f) * 2^j`.
pub proof fn lemma_denotes_large_integer(x: Real, n: nat, j: nat)
    requires
        !x.negative(),
        x.finite(),
        x.payload() / (FRACTION_SPAN as nat) == 1075 + j,
        n == (FRACTION_SPAN + x.payload() % (FRACTION_SPAN as nat)) * pow2(j),
    ensures
        x.denotes(n as int),
{
    let m = FRACTION_SPAN as nat + x.payload() % (FRACTION_SPAN as nat);
    lemma_pow2_adds(j, 1074);
    assert(m * (pow2(j) * pow2(1074)) == (m * pow2(j)) * pow2(1074)) by (nonlinear_arith);
}

/// A positive normal pattern with exponent field `1075 - k` and significand
/// `m = 2^52 + f` is the number `m / 2^k`. It lies between `low / parts` and
/// `high / parts` where `m * parts` lies between `low * 2^k` and
/// `high * 2^k`.
pub proof fn lemma_lies_between(x: Real, low: int, high: int, parts: int, k: nat)
    requires
        !x.negative(),
        x.finite(),
        k < 1075,
        x.payload() / (FRACTION_SPAN as nat) + k == 1075,
        low * pow2(k) <= (FRACTION_SPAN + x.payload() % (FRACTION_SPAN as nat)) * parts <= high
            * pow2(k),
    ensures
        x.lies_between(low, high, parts),
{
    let e = x.payload() / (FRACTION_SPAN as nat);
    let m = FRACTION_SPAN as nat + x.payload() % (FRACTION_SPAN as nat);
    let w = pow2((e - 1) as nat);
    let step = pow2(k);
    lemma_pow2_adds(k, (e - 1) as nat);
    lemma_pow2_pos((e - 1) as nat);
    assert(step * w == pow2(1074));
    assert(x.scaled() == m * w);
    assert(low * (step * w) <= (m * w) * parts <= high * (step * w)) by (nonlinear_arith)
        requires
            low * step <= m * parts <= high * step,
            w > 0,
    ;
}

/// The named constants denote what their names say.
pub proof fn lemma_small_constants()
    ensures
        Real::zero().denotes(0),
        Real::one().denotes(1),
        Real::two().denotes(2),
        Real::three().denotes(3),
        Real::five().denotes(5),
        Real::ten().denotes(10),
{
    vstd::arithmetic::power2::lemma2_to64();
    vstd::arithmetic::power2::lemma2_to64_rest();
    lemma_denotes_integer(Real::one(), 1, 52);
    lemma_denotes_integer(Real::two(), 2, 51);
    lemma_denotes_integer(Real::three(), 3, 51);
    lemma_denotes_integer(Real::five(), 5, 50);
    lemma_denotes_integer(Real::ten(), 10, 49);
}

} // verus!
