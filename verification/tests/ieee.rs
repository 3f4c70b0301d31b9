use almagest::ieee::{Real, FIVE_BITS, ONE_BITS, TEN_BITS, THREE_BITS, TWO_BITS, ZERO_BITS};

fn num(x: f64) -> Real {
    Real::from_bits(x.to_bits())
}

fn val(x: Real) -> f64 {
    f64::from_bits(x.to_bits())
}

/// Doubles of every kind: zeros of both signs, the smallest and largest
/// subnormals, the smallest and largest normals, neighbours, infinities
/// and NaNs with different payloads and signs.
fn samples() -> Vec<f64> {
    let mut all = vec![
        0.0,
        -0.0,
        f64::from_bits(1),
        f64::from_bits(0x000f_ffff_ffff_ffff),
        f64::MIN_POSITIVE,
        f64::from_bits(0x0010_0000_0000_0001),
        0.1,
        1.0 / 3.0,
        0.5,
        1.0,
        f64::from_bits(0x3ff0_0000_0000_0001),
        1.5,
        2.0,
        10.0,
        1340.0,
        50_000.0,
        f64::from_bits(0x40e8_6a00_0000_0001),
        5.9e9,
        200e9,
        f64::from_bits(0x4247_4876_e800_0001),
        3.986004418e14,
        5.972e24,
        f64::MAX,
        f64::INFINITY,
        f64::NAN,
        f64::from_bits(0x7ff0_0000_0000_0001),
        f64::from_bits(0x7fff_ffff_ffff_ffff),
    ];
    let negated: Vec<f64> = all.iter().map(|x| -x).collect();
    all.extend(negated);
    all
}

#[test]
fn comparisons_agree_with_the_machine_on_every_pair() {
    let all = samples();
    for &a in &all {
        for &b in &all {
            let (x, y) = (num(a), num(b));
            assert_eq!(x.is_below(y), a < b, "{a:e} < {b:e}");
            assert_eq!(x.is_at_most(y), a <= b, "{a:e} <= {b:e}");
            assert_eq!(x.is_above(y), a > b, "{a:e} > {b:e}");
            assert_eq!(x.is_at_least(y), a >= b, "{a:e} >= {b:e}");
            assert_eq!(x.is_equal(y), a == b, "{a:e} == {b:e}");
        }
    }
}

#[test]
fn operators_agree_with_the_machine_on_every_pair() {
    let all = samples();
    for &a in &all {
        for &b in &all {
            let (x, y) = (num(a), num(b));
            assert_eq!(x < y, a < b, "{a:e} < {b:e}");
            assert_eq!(x <= y, a <= b, "{a:e} <= {b:e}");
            assert_eq!(x > y, a > b, "{a:e} > {b:e}");
            assert_eq!(x >= y, a >= b, "{a:e} >= {b:e}");
            assert_eq!(x == y, a == b, "{a:e} == {b:e}");
            assert_eq!(x != y, a != b, "{a:e} != {b:e}");
            assert_eq!(x.partial_cmp(&y), a.partial_cmp(&b), "{a:e} <=> {b:e}");
        }
    }
}

#[test]
fn classification_agrees_with_the_machine() {
    for &a in &samples() {
        let x = num(a);
        assert_eq!(x.is_nan(), a.is_nan(), "{a:e}");
        assert_eq!(x.is_infinite(), a.is_infinite(), "{a:e}");
        assert_eq!(x.is_finite(), a.is_finite(), "{a:e}");
        assert_eq!(x.is_sign_negative(), a.is_sign_negative(), "{a:e}");
    }
}

#[test]
fn min_agrees_with_the_machine_on_every_pair() {
    let all = samples();
    for &a in &all {
        for &b in &all {
            let got = val(num(a).min(num(b)));
            let want = a.min(b);
            if want.is_nan() {
                assert!(got.is_nan(), "min({a:e}, {b:e})");
            } else {
                assert_eq!(got, want, "min({a:e}, {b:e})");
            }
        }
    }
}

#[test]
fn min_ignores_a_nan_and_keeps_the_first_of_two_equals() {
    assert_eq!(num(f64::NAN).min(num(1.0)).to_bits(), 1.0f64.to_bits());
    assert_eq!(num(1.0).min(num(f64::NAN)).to_bits(), 1.0f64.to_bits());
    assert_eq!(num(0.25).min(num(1.0)).to_bits(), 0.25f64.to_bits());
    assert_eq!(num(4.0).min(num(1.0)).to_bits(), 1.0f64.to_bits());
    assert_eq!(num(-0.0).min(num(0.0)).to_bits(), (-0.0f64).to_bits());
    assert_eq!(num(0.0).min(num(-0.0)).to_bits(), 0.0f64.to_bits());
}

#[test]
fn bits_go_in_and_come_out_unchanged() {
    for &a in &samples() {
        assert_eq!(Real::from_bits(a.to_bits()).to_bits(), a.to_bits());
        assert_eq!(Real::from_bits(a.to_bits()).bits, a.to_bits());
    }
}

#[test]
fn named_constants_are_the_numbers_named() {
    assert_eq!(ZERO_BITS, 0.0f64.to_bits());
    assert_eq!(ONE_BITS, 1.0f64.to_bits());
    assert_eq!(TWO_BITS, 2.0f64.to_bits());
    assert_eq!(THREE_BITS, 3.0f64.to_bits());
    assert_eq!(FIVE_BITS, 5.0f64.to_bits());
    assert_eq!(TEN_BITS, 10.0f64.to_bits());
}

#[test]
fn a_nan_is_unordered_and_unequal_even_to_itself() {
    let nan = num(f64::NAN);
    assert!(!nan.is_below(nan));
    assert!(!nan.is_at_most(nan));
    assert!(!nan.is_above(nan));
    assert!(!nan.is_at_least(nan));
    assert!(!nan.is_equal(nan));
    assert!(nan != nan);
    assert_eq!(nan.partial_cmp(&nan), None);
}

#[test]
fn the_two_zeros_are_equal_and_neither_is_below_the_other() {
    let (plus, minus) = (num(0.0), num(-0.0));
    assert!(plus.is_equal(minus));
    assert!(!minus.is_below(plus));
    assert!(!plus.is_below(minus));
    assert!(minus.is_at_most(plus));
    assert!(plus.is_at_most(minus));
}
