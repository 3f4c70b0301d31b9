//! Real numbers whose squares are near a given quotient.
//!
//! A positive `v` is within one part in 10^12 of the root of `n / d`
//! exactly when `v * v * d` lies between `n * (1 - 10^-12)^2` and
//! `n * (1 + 10^-12)^2`. The laws of this module are stated in that form,
//! which needs no root to be named. They are laws of the real numbers:
//! no arithmetic of the machine occurs in them.

use vstd::prelude::*;

use crate::rounding::distance;

verus! {

/// `v * v * d` lies within one part in 10^12, taken twice, of `n`: `v` is
/// within one part in 10^12 of the root of `n / d`.
pub open spec fn squares_to(v: real, d: real, n: real) -> bool {
    n * (999_999_999_999real * 999_999_999_999real) <= v * v * d * (1_000_000_000_000real
        * 1_000_000_000_000real) && v * v * d * (1_000_000_000_000real * 1_000_000_000_000real)
        <= n * (1_000_000_000_001real * 1_000_000_000_001real)
}

/// A positive number whose square is within one part in 2^53, on either
/// side, of a number `q` that, times `d`, is within one part in 2^50 of
/// `n`, squares to `n / d`.
pub proof fn lemma_root_squares_to(v: real, q: real, d: real, n: real)
    requires
        v > 0real,
        d > 0real,
        n > 0real,
        v * v * (9007199254740991real * 9007199254740991real) <= q * (9007199254740992real
            * 9007199254740992real),
        q * (9007199254740992real * 9007199254740992real) <= v * v * (9007199254740993real
            * 9007199254740993real),
        distance(q * d, n) * 1125899906842624real <= n,
    ensures
        squares_to(v, d, n),
{
    let a = 9007199254740992real;
    let k = 1125899906842624real;
    let t = 1_000_000_000_000real;
    let x = v * v * d;
    let qd = q * d;
    assert(qd * k <= n * (k + 1real) && qd * k >= n * (k - 1real));
    assert(x * ((a - 1real) * (a - 1real)) <= qd * (a * a) && qd * (a * a) <= x * ((a + 1real)
        * (a + 1real))) by (nonlinear_arith)
        requires
            x == v * v * d,
            qd == q * d,
            d > 0real,
            v * v * ((a - 1real) * (a - 1real)) <= q * (a * a),
            q * (a * a) <= v * v * ((a + 1real) * (a + 1real)),
    ;
    let low = (a - 1real) * (a - 1real) * k;
    let high = (k + 1real) * (a * a);
    assert(x * low <= n * high) by (nonlinear_arith)
        requires
            x * ((a - 1real) * (a - 1real)) <= qd * (a * a),
            qd * k <= n * (k + 1real),
            low == (a - 1real) * (a - 1real) * k,
            high == (k + 1real) * (a * a),
            a == 9007199254740992real,
            k == 1125899906842624real,
    {
        assert(x * ((a - 1real) * (a - 1real)) * k <= qd * (a * a) * k);
        assert(qd * k * (a * a) <= n * (k + 1real) * (a * a));
    }
    assert(high * (t * t) <= low * ((t + 1real) * (t + 1real)));
    assert(x * (t * t) <= n * ((t + 1real) * (t + 1real))) by (nonlinear_arith)
        requires
            x * low <= n * high,
            high * (t * t) <= low * ((t + 1real) * (t + 1real)),
            low > 0real,
            n > 0real,
    {
        assert(x * low * (t * t) <= n * high * (t * t));
        assert(n * (high * (t * t)) <= n * (low * ((t + 1real) * (t + 1real))));
        assert(x * (t * t) * low <= n * ((t + 1real) * (t + 1real)) * low);
    }
    let under = (k - 1real) * (a * a);
    let over = (a + 1real) * (a + 1real) * k;
    assert(n * under <= x * over) by (nonlinear_arith)
        requires
            qd * (a * a) <= x * ((a + 1real) * (a + 1real)),
            qd * k >= n * (k - 1real),
            under == (k - 1real) * (a * a),
            over == (a + 1real) * (a + 1real) * k,
            a == 9007199254740992real,
            k == 1125899906842624real,
    {
        assert(qd * (a * a) * k <= x * ((a + 1real) * (a + 1real)) * k);
        assert(qd * k * (a * a) >= n * (k - 1real) * (a * a));
    }
    assert(over * ((t - 1real) * (t - 1real)) <= under * (t * t));
    assert(n * ((t - 1real) * (t - 1real)) <= x * (t * t)) by (nonlinear_arith)
        requires
            n * under <= x * over,
            over * ((t - 1real) * (t - 1real)) <= under * (t * t),
            over > 0real,
            n > 0real,
            x >= 0real,
    {
        assert(n * under * ((t - 1real) * (t - 1real)) <= x * over * ((t - 1real) * (t
            - 1real)));
        assert(x * (over * ((t - 1real) * (t - 1real))) <= x * (under * (t * t)));
        assert(n * ((t - 1real) * (t - 1real)) * under <= x * (t * t) * under);
    }
    assert(x >= 0real) by (nonlinear_arith)
        requires
            x == v * v * d,
            d > 0real,
    ;
}

/// What squares to `n / d` has a square that, times `d`, is within one
/// part in 10^10 of `n`.
pub proof fn lemma_square_is_near(v: real, d: real, n: real)
    requires
        n > 0real,
        squares_to(v, d, n),
    ensures
        distance(v * v * d, n) * 10_000_000_000real <= n,
{
    let x = v * v * d;
    let t = 1_000_000_000_000real;
    assert(distance(x, n) * 10_000_000_000real <= n) by (nonlinear_arith)
        requires
            n * ((t - 1real) * (t - 1real)) <= x * (t * t),
            x * (t * t) <= n * ((t + 1real) * (t + 1real)),
            n > 0real,
            t == 1_000_000_000_000real,
    ;
}

/// What squares to `n / d` is within one part in 10^12 of the root of
/// `n / d`: of the `w`, not negative, with `w * w * d == n`.
pub proof fn lemma_squares_to_means(v: real, d: real, n: real, w: real)
    requires
        v >= 0real,
        d > 0real,
        n > 0real,
        squares_to(v, d, n),
        w >= 0real,
        w * w * d == n,
    ensures
        distance(v, w) * 1_000_000_000_000real <= w,
{
    let t = 1_000_000_000_000real;
    lemma_scaled_square(v, t, d);
    lemma_scaled_square(w, t + 1real, d);
    lemma_scaled_square(w, t - 1real, d);
    lemma_root_order(v * t, w * (t + 1real), d);
    lemma_root_order(w * (t - 1real), v * t, d);
}

/// Of two numbers that are not negative, the one with the smaller square
/// is the smaller.
pub proof fn lemma_root_order(x: real, y: real, d: real)
    requires
        x >= 0real,
        y >= 0real,
        d > 0real,
        x * x * d <= y * y * d,
    ensures
        x <= y,
{
    if x > y {
        assert(x * x > y * y) by (nonlinear_arith)
            requires
                x > y,
                y >= 0real,
        ;
        assert(x * x * d > y * y * d) by (nonlinear_arith)
            requires
                x * x > y * y,
                d > 0real,
        ;
    }
}

/// The square of a multiple: `(x * c)^2 * d` is `x^2 * d * c^2`.
pub proof fn lemma_scaled_square(x: real, c: real, d: real)
    ensures
        (x * c) * (x * c) * d == x * x * d * (c * c),
{
    assert((x * c) * (x * c) * d == x * x * d * (c * c)) by (nonlinear_arith);
}

/// Two positive numbers that square to the same, either times the same
/// positive factor, are within one part in 10^10 of each other.
pub proof fn lemma_same_square(x: real, y: real, d: real, n: real)
    requires
        x > 0real,
        y > 0real,
        d > 0real,
        n > 0real,
        squares_to(x, d, n),
        squares_to(y, d, n),
    ensures
        distance(x, y) * 10_000_000_000real <= x,
{
    let t = 1_000_000_000_000real;
    let xx = x * x * d;
    let yy = y * y * d;
    let lo = (t - 1real) * (t - 1real);
    let hi = (t + 1real) * (t + 1real);
    let tt = t * t;
    assert(xx * lo <= yy * hi && yy * lo <= xx * hi) by (nonlinear_arith)
        requires
            n * lo <= xx * tt,
            xx * tt <= n * hi,
            n * lo <= yy * tt,
            yy * tt <= n * hi,
            lo == 999_999_999_998_000_000_000_001real,
            hi == 1_000_000_000_002_000_000_000_001real,
            tt == 1_000_000_000_000_000_000_000_000real,
    ;
    lemma_scaled_square(x, t - 1real, d);
    lemma_scaled_square(y, t + 1real, d);
    lemma_scaled_square(y, t - 1real, d);
    lemma_scaled_square(x, t + 1real, d);
    lemma_root_order(x * (t - 1real), y * (t + 1real), d);
    lemma_root_order(y * (t - 1real), x * (t + 1real), d);
}

/// A number that, times a rounded cube `c`, is within one part in 2^53 of
/// `m` is, times the exact cube, within one part in 2^50 of `m`.
pub proof fn lemma_over_cube(q: real, c: real, cube: real, m: real)
    requires
        cube > 0real,
        m > 0real,
        distance(c, cube) * 4503599627370496real <= cube,
        distance(q * c, m) * 9007199254740992real <= m,
    ensures
        distance(q * cube, m) * 1125899906842624real <= m,
{
    let a = 9007199254740992real;
    let b = 4503599627370496real;
    let k = 1125899906842624real;
    assert(c * b >= cube * (b - 1real) && c * b <= cube * (b + 1real));
    assert(c > 0real);
    let qc = q * c;
    assert(qc * a <= m * (a + 1real) && qc * a >= m * (a - 1real));
    assert(q > 0real) by (nonlinear_arith)
        requires
            qc == q * c,
            qc * a >= m * (a - 1real),
            m > 0real,
            c > 0real,
            a == 9007199254740992real,
    ;
    let x = q * cube;
    assert(x * k <= m * (k + 1real)) by (nonlinear_arith)
        requires
            x == q * cube,
            qc == q * c,
            qc * a <= m * (a + 1real),
            c * b >= cube * (b - 1real),
            q > 0real,
            m > 0real,
            a == 9007199254740992real,
            b == 4503599627370496real,
            k == 1125899906842624real,
    {
        assert(q * (c * b) >= q * (cube * (b - 1real)));
        assert(x * (b - 1real) <= qc * b);
        assert(x * (b - 1real) * a <= qc * a * b);
        assert(qc * a * b <= m * (a + 1real) * b);
        assert((a + 1real) * b * k <= (k + 1real) * ((b - 1real) * a));
        assert(x * ((b - 1real) * a) * k <= m * ((a + 1real) * b * k));
        assert(m * ((a + 1real) * b * k) <= m * ((k + 1real) * ((b - 1real) * a)));
    }
    assert(x * k >= m * (k - 1real)) by (nonlinear_arith)
        requires
            x == q * cube,
            qc == q * c,
            qc * a >= m * (a - 1real),
            c * b <= cube * (b + 1real),
            q > 0real,
            m > 0real,
            a == 9007199254740992real,
            b == 4503599627370496real,
            k == 1125899906842624real,
    {
        assert(q * (c * b) <= q * (cube * (b + 1real)));
        assert(x * (b + 1real) >= qc * b);
        assert(x * (b + 1real) * a >= qc * a * b);
        assert(qc * a * b >= m * (a - 1real) * b);
        assert((a - 1real) * b * k >= (k - 1real) * ((b + 1real) * a));
        assert(x * ((b + 1real) * a) * k >= m * ((a - 1real) * b * k));
        assert(m * ((a - 1real) * b * k) >= m * ((k - 1real) * ((b + 1real) * a)));
    }
}

/// A number that, times `m`, is within one part in 2^53 of a rounded cube
/// `c` is, times `m`, within one part in 2^50 of the exact cube.
pub proof fn lemma_of_cube(q: real, c: real, cube: real, m: real)
    requires
        cube > 0real,
        m > 0real,
        distance(c, cube) * 4503599627370496real <= cube,
        distance(q * m, c) * 9007199254740992real <= c,
    ensures
        distance(q * m, cube) * 1125899906842624real <= cube,
{
    let a = 9007199254740992real;
    let b = 4503599627370496real;
    let k = 1125899906842624real;
    assert(c * b >= cube * (b - 1real) && c * b <= cube * (b + 1real));
    assert(c > 0real);
    let qm = q * m;
    assert(qm * a <= c * (a + 1real) && qm * a >= c * (a - 1real));
    assert(qm * k <= cube * (k + 1real) && qm * k >= cube * (k - 1real)) by (nonlinear_arith)
        requires
            qm * a <= c * (a + 1real),
            qm * a >= c * (a - 1real),
            c * b >= cube * (b - 1real),
            c * b <= cube * (b + 1real),
            cube > 0real,
            c > 0real,
            a == 9007199254740992real,
            b == 4503599627370496real,
            k == 1125899906842624real,
    {
        assert(qm * a * b <= c * b * (a + 1real));
        assert(c * b * (a + 1real) <= cube * (b + 1real) * (a + 1real));
        assert((b + 1real) * (a + 1real) * k <= (k + 1real) * (a * b));
        assert(qm * (a * b) * k <= cube * ((b + 1real) * (a + 1real) * k));
        assert(cube * ((b + 1real) * (a + 1real) * k) <= cube * ((k + 1real) * (a * b)));
        assert(qm * a * b >= c * b * (a - 1real));
        assert(c * b * (a - 1real) >= cube * (b - 1real) * (a - 1real));
        assert((b - 1real) * (a - 1real) * k >= (k - 1real) * (a * b));
        assert(qm * (a * b) * k >= cube * ((b - 1real) * (a - 1real) * k));
        assert(cube * ((b - 1real) * (a - 1real) * k) >= cube * ((k - 1real) * (a * b)));
    }
}

/// `t * t * m` lies within one part in 10^11, taken twice, of the square
/// of `circle` times `cube`: `t` is within one part in 10^11 of
/// `circle * sqrt(cube / m)`.
pub open spec fn period_squares_to(t: real, m: real, circle: real, cube: real) -> bool {
    circle * circle * cube * (99_999_999_999real * 99_999_999_999real) <= t * t * m * (
    100_000_000_000real * 100_000_000_000real) && t * t * m * (100_000_000_000real
        * 100_000_000_000real) <= circle * circle * cube * (100_000_000_001real
        * 100_000_000_001real)
}

/// The product of the full circle and a root that squares to `cube / m`,
/// rounded once, squares to the square of the full circle times `cube /
/// m`, to within one part in 10^11 taken twice.
pub proof fn lemma_period_squares(
    result: real,
    turned: real,
    circle: real,
    got: real,
    m: real,
    cube: real,
)
    requires
        circle > 0real,
        got > 0real,
        m > 0real,
        cube > 0real,
        turned == circle * got,
        squares_to(got, m, cube),
        result > 0real,
        distance(result, turned) * 9007199254740992real <= turned,
    ensures
        period_squares_to(result, m, circle, cube),
{
    let a = 9007199254740992real;
    let t = 1_000_000_000_000real;
    let e = 100_000_000_000real;
    let x = got * got * m;
    let cc = circle * circle;
    let tt = turned * turned * m;
    let rr = result * result * m;
    assert(tt == cc * x) by (nonlinear_arith)
        requires
            tt == turned * turned * m,
            turned == circle * got,
            x == got * got * m,
            cc == circle * circle,
    ;
    assert(cc > 0real) by (nonlinear_arith)
        requires
            cc == circle * circle,
            circle > 0real,
    ;
    let n = cc * cube;
    assert(n * ((t - 1real) * (t - 1real)) <= tt * (t * t) && tt * (t * t) <= n * ((t + 1real)
        * (t + 1real))) by (nonlinear_arith)
        requires
            tt == cc * x,
            n == cc * cube,
            cc > 0real,
            cube * ((t - 1real) * (t - 1real)) <= x * (t * t),
            x * (t * t) <= cube * ((t + 1real) * (t + 1real)),
    {
        assert(cc * (cube * ((t - 1real) * (t - 1real))) <= cc * (x * (t * t)));
        assert(cc * (x * (t * t)) <= cc * (cube * ((t + 1real) * (t + 1real))));
    }
    assert(turned > 0real) by (nonlinear_arith)
        requires
            turned == circle * got,
            circle > 0real,
            got > 0real,
    ;
    assert(result * a <= turned * (a + 1real) && result * a >= turned * (a - 1real));
    assert(rr * (a * a) <= tt * ((a + 1real) * (a + 1real)) && rr * (a * a) >= tt * ((a - 1real)
        * (a - 1real))) by (nonlinear_arith)
        requires
            rr == result * result * m,
            tt == turned * turned * m,
            result * a <= turned * (a + 1real),
            result * a >= turned * (a - 1real),
            result > 0real,
            turned > 0real,
            m > 0real,
            a == 9007199254740992real,
    {
        let p = result * a;
        let hi = turned * (a + 1real);
        let lo = turned * (a - 1real);
        assert(p * p <= hi * hi);
        assert(p * p >= lo * lo);
        assert(p * p * m <= hi * hi * m);
        assert(p * p * m >= lo * lo * m);
        assert(p * p * m == rr * (a * a));
        assert(hi * hi * m == tt * ((a + 1real) * (a + 1real)));
        assert(lo * lo * m == tt * ((a - 1real) * (a - 1real)));
    }
    assert(n > 0real) by (nonlinear_arith)
        requires
            n == cc * cube,
            cc > 0real,
            cube > 0real,
    ;
    assert(rr >= 0real) by (nonlinear_arith)
        requires
            rr == result * result * m,
            m > 0real,
    ;
    let up = (a + 1real) * (a + 1real) * ((t + 1real) * (t + 1real));
    let down = (a - 1real) * (a - 1real) * ((t - 1real) * (t - 1real));
    let base = (a * a) * (t * t);
    assert(rr * base <= n * up && n * down <= rr * base) by (nonlinear_arith)
        requires
            rr * (a * a) <= tt * ((a + 1real) * (a + 1real)),
            rr * (a * a) >= tt * ((a - 1real) * (a - 1real)),
            n * ((t - 1real) * (t - 1real)) <= tt * (t * t),
            tt * (t * t) <= n * ((t + 1real) * (t + 1real)),
            up == (a + 1real) * (a + 1real) * ((t + 1real) * (t + 1real)),
            down == (a - 1real) * (a - 1real) * ((t - 1real) * (t - 1real)),
            base == (a * a) * (t * t),
            a == 9007199254740992real,
            t == 1_000_000_000_000real,
    {
        assert(rr * (a * a) * (t * t) <= tt * ((a + 1real) * (a + 1real)) * (t * t));
        assert(tt * (t * t) * ((a + 1real) * (a + 1real)) <= n * ((t + 1real) * (t + 1real)) * ((a
            + 1real) * (a + 1real)));
        assert(rr * (a * a) * (t * t) >= tt * ((a - 1real) * (a - 1real)) * (t * t));
        assert(tt * (t * t) * ((a - 1real) * (a - 1real)) >= n * ((t - 1real) * (t - 1real)) * ((a
            - 1real) * (a - 1real)));
    }
    assert(up * (e * e) <= base * ((e + 1real) * (e + 1real)) && down * (e * e) >= base * ((e
        - 1real) * (e - 1real))) by (nonlinear_arith)
        requires
            up == (a + 1real) * (a + 1real) * ((t + 1real) * (t + 1real)),
            down == (a - 1real) * (a - 1real) * ((t - 1real) * (t - 1real)),
            base == (a * a) * (t * t),
            a == 9007199254740992real,
            t == 1_000_000_000_000real,
            e == 100_000_000_000real,
    ;
    assert(rr * (e * e) <= n * ((e + 1real) * (e + 1real)) && n * ((e - 1real) * (e - 1real))
        <= rr * (e * e)) by (nonlinear_arith)
        requires
            rr * base <= n * up,
            n * down <= rr * base,
            up * (e * e) <= base * ((e + 1real) * (e + 1real)),
            down * (e * e) >= base * ((e - 1real) * (e - 1real)),
            base > 0real,
            n > 0real,
            rr >= 0real,
    {
        assert(rr * base * (e * e) <= n * up * (e * e));
        assert(n * (up * (e * e)) <= n * (base * ((e + 1real) * (e + 1real))));
        assert(rr * (e * e) * base <= n * ((e + 1real) * (e + 1real)) * base);
        assert(n * down * (e * e) <= rr * base * (e * e));
        assert(n * (down * (e * e)) >= n * (base * ((e - 1real) * (e - 1real))));
        assert(n * ((e - 1real) * (e - 1real)) * base <= rr * (e * e) * base);
    }
}

/// Two periods that square to the cubes of their radii, each times the
/// same positive factor over `m`, have a ratio whose square is within one
/// part in 10^10 of the cube of the ratio of the radii.
pub proof fn lemma_ratios_agree(
    t1: real,
    t2: real,
    r1: real,
    r2: real,
    m: real,
    cc: real,
    x: real,
    y: real,
)
    requires
        t1 > 0real,
        t2 > 0real,
        r1 > 0real,
        r2 > 0real,
        m > 0real,
        cc > 0real,
        x * t1 == t2,
        y * r1 == r2,
        cc * (r1 * r1 * r1) * (99_999_999_999real * 99_999_999_999real) <= t1 * t1 * m * (
        100_000_000_000real * 100_000_000_000real),
        t1 * t1 * m * (100_000_000_000real * 100_000_000_000real) <= cc * (r1 * r1 * r1) * (
        100_000_000_001real * 100_000_000_001real),
        cc * (r2 * r2 * r2) * (99_999_999_999real * 99_999_999_999real) <= t2 * t2 * m * (
        100_000_000_000real * 100_000_000_000real),
        t2 * t2 * m * (100_000_000_000real * 100_000_000_000real) <= cc * (r2 * r2 * r2) * (
        100_000_000_001real * 100_000_000_001real),
    ensures
        distance(x * x, y * y * y) * 10_000_000_000real <= y * y * y,
{
    let e = 100_000_000_000real;
    let g = 10_000_000_000real;
    let lo = (e - 1real) * (e - 1real);
    let hi = (e + 1real) * (e + 1real);
    let s1 = t1 * t1 * m;
    let s2 = t2 * t2 * m;
    let c1 = cc * (r1 * r1 * r1);
    let c2 = cc * (r2 * r2 * r2);
    let xx = x * x;
    let yyy = y * y * y;
    assert(s2 == xx * s1 && c2 == yyy * c1) by (nonlinear_arith)
        requires
            s1 == t1 * t1 * m,
            s2 == t2 * t2 * m,
            c1 == cc * (r1 * r1 * r1),
            c2 == cc * (r2 * r2 * r2),
            x * t1 == t2,
            y * r1 == r2,
            xx == x * x,
            yyy == y * y * y,
    ;
    assert(s1 > 0real && c1 > 0real && yyy > 0real && xx >= 0real) by (nonlinear_arith)
        requires
            s1 == t1 * t1 * m,
            c1 == cc * (r1 * r1 * r1),
            yyy == y * y * y,
            xx == x * x,
            y * r1 == r2,
            t1 > 0real,
            m > 0real,
            cc > 0real,
            r1 > 0real,
            r2 > 0real,
    {
        assert(y > 0real);
        assert(y * y > 0real);
    }
    // xx * s1 within hi / lo of yyy * c1, and s1 within hi / lo of c1.
    assert(xx * lo <= yyy * hi && yyy * lo <= xx * hi) by (nonlinear_arith)
        requires
            c1 * lo <= s1 * (e * e),
            s1 * (e * e) <= c1 * hi,
            yyy * c1 * lo <= xx * s1 * (e * e),
            xx * s1 * (e * e) <= yyy * c1 * hi,
            s1 > 0real,
            c1 > 0real,
            yyy > 0real,
            xx >= 0real,
            lo > 0real,
            hi > 0real,
            e > 0real,
    {
        assert(xx * (c1 * lo) <= xx * (s1 * (e * e)));
        assert(xx * c1 * lo <= yyy * c1 * hi);
        assert(yyy * (s1 * (e * e)) <= yyy * (c1 * hi));
        assert(yyy * c1 * lo * (s1 * (e * e)) <= xx * s1 * (e * e) * (c1 * hi));
        assert(yyy * lo * (c1 * s1 * (e * e)) <= xx * hi * (c1 * s1 * (e * e)));
        assert(c1 * s1 * (e * e) > 0real);
    }
    assert(hi * g <= lo * (g + 1real));
    assert(lo * g >= hi * (g - 1real));
    assert(distance(xx, yyy) * g <= yyy) by (nonlinear_arith)
        requires
            xx * lo <= yyy * hi,
            yyy * lo <= xx * hi,
            hi * g <= lo * (g + 1real),
            lo * g >= hi * (g - 1real),
            lo > 0real,
            hi > 0real,
            yyy > 0real,
            xx >= 0real,
            g > 1real,
    {
        assert(xx * lo * g <= yyy * hi * g);
        assert(yyy * (hi * g) <= yyy * (lo * (g + 1real)));
        assert(xx * g * lo <= yyy * (g + 1real) * lo);
        assert(yyy * lo * g <= xx * hi * g);
        assert(yyy * (lo * g) >= yyy * (hi * (g - 1real)));
        assert(yyy * (g - 1real) * hi <= xx * g * hi);
    }
}

/// The exact apoapsis of the rounded eccentricity: for `r_p <= r_a <=
/// 10^6 * r_p` and an eccentricity within 8 parts in 2^53 of the exact
/// one, `a * (1 + e)` with `a * (1 - e) == r_p` is within one part in 10^8
/// of `r_a`.
pub proof fn lemma_apoapsis_of_near_eccentricity(
    rp: real,
    ra: real,
    e: real,
    eh: real,
    a: real,
)
    requires
        0real < rp <= ra <= 1_000_000real * rp,
        e * (ra + rp) == ra - rp,
        distance(eh, e) * 9007199254740992real <= 8real,
        0real <= eh < 1real,
        a * (1real - eh) == rp,
    ensures
        a > 0real,
        a <= rp * 1_000_001real,
        distance(a * (1real + eh), ra) * 100_000_000real <= ra,
{
    let big = 9007199254740992real;
    let k = 1_000_001real;
    let sum = ra + rp;
    let g = 1real - eh;
    let x = a * (1real + eh);
    let delta = eh - e;
    assert((1real - e) * sum == 2real * rp) by (nonlinear_arith)
        requires
            e * sum == ra - rp,
            sum == ra + rp,
    ;
    assert((1real - e) * k >= 2real) by (nonlinear_arith)
        requires
            (1real - e) * sum == 2real * rp,
            sum == ra + rp,
            0real < rp <= ra,
            ra <= 1_000_000real * rp,
            k == 1_000_001real,
    {
        assert(sum <= k * rp);
        assert((1real - e) * sum <= (1real - e) * (k * rp) || 1real - e < 0real);
    }
    assert(g * k >= 1real);
    assert(a > 0real && a <= rp * k) by (nonlinear_arith)
        requires
            a * g == rp,
            g * k >= 1real,
            g > 0real,
            rp > 0real,
            k > 0real,
    {
        assert(a * (g * k) >= a);
    }
    assert((x - ra) * g == delta * sum) by (nonlinear_arith)
        requires
            x == a * (1real + eh),
            a * (1real - eh) == rp,
            g == 1real - eh,
            e * sum == ra - rp,
            sum == ra + rp,
            delta == eh - e,
    {
        assert(x * g == rp * (1real + eh));
        assert(ra * (1real - e) == rp * (1real + e));
        assert(ra * g == ra * (1real - e) - ra * delta);
    }
    assert(distance(x, ra) * big <= 16real * k * ra) by (nonlinear_arith)
        requires
            (x - ra) * g == delta * sum,
            distance(eh, e) * big <= 8real,
            delta == eh - e,
            g * k >= 1real,
            g > 0real,
            0real < sum <= 2real * ra,
            k == 1_000_001real,
            big == 9007199254740992real,
    {
        let gap = distance(x, ra);
        let off = distance(eh, e);
        assert(gap * g == off * sum);
        assert(gap <= gap * (g * k));
        assert(gap * g * k == off * sum * k);
        assert(off * sum * k * big <= 8real * sum * k);
    }
}

} // verus!
