//! What a formula means where no operation rounds: its value over the
//! real numbers.
//!
//! A formula has at most one exact value. It has none where it divides by
//! zero, takes the root of a negative number, raises to a power that is
//! not a natural number, or rests on a number that is not finite.

use vstd::arithmetic::power2::pow2;
use vstd::prelude::*;

use crate::arithmetic::{
    difference, power, product, quotient, square_root, sum, value, Formula,
};
use crate::ieee::{scale_exponent, Real};

verus! {

/// The real number that a finite double is: its scaled value over 2^1074.
pub open spec fn exact_value(x: Real) -> real {
    x.scaled() as real / (pow2(scale_exponent()) as real)
}

/// `base` multiplied by itself `n` times.
pub open spec fn real_power(base: real, n: nat) -> real
    decreases n,
{
    if n == 0 {
        1real
    } else {
        base * real_power(base, (n - 1) as nat)
    }
}

/// The record of one evaluation of a formula over the real numbers: the
/// formula, with the number that each of its operations gives.
pub enum Derivation {
    /// A given number.
    Value(Real),
    Sum(Box<Derivation>, Box<Derivation>, real),
    Difference(Box<Derivation>, Box<Derivation>, real),
    Product(Box<Derivation>, Box<Derivation>, real),
    Quotient(Box<Derivation>, Box<Derivation>, real),
    SquareRoot(Box<Derivation>, real),
    Power(Box<Derivation>, Box<Derivation>, real),
}

impl Derivation {
    /// The number that the evaluation ends with.
    pub open spec fn result(self) -> real {
        match self {
            Derivation::Value(x) => exact_value(x),
            Derivation::Sum(_, _, r) => r,
            Derivation::Difference(_, _, r) => r,
            Derivation::Product(_, _, r) => r,
            Derivation::Quotient(_, _, r) => r,
            Derivation::SquareRoot(_, r) => r,
            Derivation::Power(_, _, r) => r,
        }
    }

    /// The formula that was evaluated.
    pub open spec fn formula(self) -> Formula
        decreases self,
    {
        match self {
            Derivation::Value(x) => value(x),
            Derivation::Sum(a, b, _) => sum(a.formula(), b.formula()),
            Derivation::Difference(a, b, _) => difference(a.formula(), b.formula()),
            Derivation::Product(a, b, _) => product(a.formula(), b.formula()),
            Derivation::Quotient(a, b, _) => quotient(a.formula(), b.formula()),
            Derivation::SquareRoot(a, _) => square_root(a.formula()),
            Derivation::Power(a, b, _) => power(a.formula(), b.formula()),
        }
    }

    /// Every number of the record is the exact result of its operation on
    /// the numbers recorded for its operands. A root is the root that is
    /// not negative.
    pub open spec fn exact(self) -> bool
        decreases self,
    {
        match self {
            Derivation::Value(x) => x.finite(),
            Derivation::Sum(a, b, r) => a.exact() && b.exact() && r == a.result() + b.result(),
            Derivation::Difference(a, b, r) => a.exact() && b.exact() && r == a.result()
                - b.result(),
            Derivation::Product(a, b, r) => a.exact() && b.exact() && r == a.result() * b.result(),
            Derivation::Quotient(a, b, r) => a.exact() && b.exact() && b.result() != 0real && r
                * b.result() == a.result(),
            Derivation::SquareRoot(a, r) => a.exact() && r >= 0real && r * r == a.result(),
            Derivation::Power(a, b, r) => a.exact() && b.exact() && b.result().floor() >= 0
                && b.result() == b.result().floor() as real && r == real_power(
                a.result(),
                b.result().floor() as nat,
            ),
        }
    }
}

/// `x` is the value of `formula` in exact arithmetic.
pub open spec fn means(formula: Formula, x: real) -> bool {
    exists|d: Derivation| #[trigger] d.exact() && d.formula() == formula && d.result() == x
}

/// Two exact evaluations of one formula end with the same number.
pub proof fn lemma_derivations_agree(d1: Derivation, d2: Derivation)
    requires
        d1.exact(),
        d2.exact(),
        d1.formula() == d2.formula(),
    ensures
        d1.result() == d2.result(),
    decreases d1,
{
    match (d1, d2) {
        (Derivation::Value(_), Derivation::Value(_)) => {},
        (Derivation::Sum(a1, b1, _), Derivation::Sum(a2, b2, _)) => {
            lemma_derivations_agree(*a1, *a2);
            lemma_derivations_agree(*b1, *b2);
        },
        (Derivation::Difference(a1, b1, _), Derivation::Difference(a2, b2, _)) => {
            lemma_derivations_agree(*a1, *a2);
            lemma_derivations_agree(*b1, *b2);
        },
        (Derivation::Product(a1, b1, _), Derivation::Product(a2, b2, _)) => {
            lemma_derivations_agree(*a1, *a2);
            lemma_derivations_agree(*b1, *b2);
        },
        (Derivation::Quotient(a1, b1, r1), Derivation::Quotient(a2, b2, r2)) => {
            lemma_derivations_agree(*a1, *a2);
            lemma_derivations_agree(*b1, *b2);
            let n = a1.result();
            let d = b1.result();
            assert(r1 == r2) by (nonlinear_arith)
                requires
                    d != 0real,
                    r1 * d == n,
                    r2 * d == n,
            ;
        },
        (Derivation::SquareRoot(a1, r1), Derivation::SquareRoot(a2, r2)) => {
            lemma_derivations_agree(*a1, *a2);
            let s = a1.result();
            assert(r1 == r2) by (nonlinear_arith)
                requires
                    r1 >= 0real,
                    r2 >= 0real,
                    r1 * r1 == s,
                    r2 * r2 == s,
            ;
        },
        (Derivation::Power(a1, b1, _), Derivation::Power(a2, b2, _)) => {
            lemma_derivations_agree(*a1, *a2);
            lemma_derivations_agree(*b1, *b2);
        },
        _ => {},
    }
}

/// A formula has at most one exact value.
pub proof fn lemma_one_meaning(formula: Formula, x: real, y: real)
    requires
        means(formula, x),
        means(formula, y),
    ensures
        x == y,
{
    let d1 = choose|d: Derivation| #[trigger] d.exact() && d.formula() == formula && d.result() == x;
    let d2 = choose|d: Derivation| #[trigger] d.exact() && d.formula() == formula && d.result() == y;
    lemma_derivations_agree(d1, d2);
}

/// A given number means itself, where it is finite.
pub proof fn lemma_means_value(x: Real, v: real)
    ensures
        means(value(x), v) <==> x.finite() && v == exact_value(x),
{
    if x.finite() && v == exact_value(x) {
        let d = Derivation::Value(x);
        assert(d.exact() && d.formula() == value(x) && d.result() == v);
    }
    if means(value(x), v) {
        let d = choose|d: Derivation| #[trigger]
            d.exact() && d.formula() == value(x) && d.result() == v;
        assert(d is Value);
    }
}

/// A sum means the sum of what its operands mean.
pub proof fn lemma_means_sum(a: Formula, b: Formula, v: real)
    ensures
        means(sum(a, b), v) <==> exists|x: real, y: real| #[trigger]
            means(a, x) && #[trigger] means(b, y) && v == x + y,
{
    if means(sum(a, b), v) {
        let d = choose|d: Derivation| #[trigger]
            d.exact() && d.formula() == sum(a, b) && d.result() == v;
        assert(d is Sum);
        let da = *d->Sum_0;
        let db = *d->Sum_1;
        assert(da.exact() && da.formula() == a);
        assert(db.exact() && db.formula() == b);
        assert(means(a, da.result()) && means(b, db.result()));
    }
    if exists|x: real, y: real| #[trigger] means(a, x) && #[trigger] means(b, y) && v == x + y {
        let (x, y) = choose|x: real, y: real| #[trigger]
            means(a, x) && #[trigger] means(b, y) && v == x + y;
        let da = choose|d: Derivation| #[trigger] d.exact() && d.formula() == a && d.result() == x;
        let db = choose|d: Derivation| #[trigger] d.exact() && d.formula() == b && d.result() == y;
        let d = Derivation::Sum(Box::new(da), Box::new(db), v);
        assert(d.exact() && d.formula() == sum(a, b) && d.result() == v);
    }
}

/// A difference means the difference of what its operands mean.
pub proof fn lemma_means_difference(a: Formula, b: Formula, v: real)
    ensures
        means(difference(a, b), v) <==> exists|x: real, y: real| #[trigger]
            means(a, x) && #[trigger] means(b, y) && v == x - y,
{
    if means(difference(a, b), v) {
        let d = choose|d: Derivation| #[trigger]
            d.exact() && d.formula() == difference(a, b) && d.result() == v;
        assert(d is Difference);
        let da = *d->Difference_0;
        let db = *d->Difference_1;
        assert(da.exact() && da.formula() == a);
        assert(db.exact() && db.formula() == b);
        assert(means(a, da.result()) && means(b, db.result()));
    }
    if exists|x: real, y: real| #[trigger] means(a, x) && #[trigger] means(b, y) && v == x - y {
        let (x, y) = choose|x: real, y: real| #[trigger]
            means(a, x) && #[trigger] means(b, y) && v == x - y;
        let da = choose|d: Derivation| #[trigger] d.exact() && d.formula() == a && d.result() == x;
        let db = choose|d: Derivation| #[trigger] d.exact() && d.formula() == b && d.result() == y;
        let d = Derivation::Difference(Box::new(da), Box::new(db), v);
        assert(d.exact() && d.formula() == difference(a, b) && d.result() == v);
    }
}

/// A product means the product of what its operands mean.
pub proof fn lemma_means_product(a: Formula, b: Formula, v: real)
    ensures
        means(product(a, b), v) <==> exists|x: real, y: real| #[trigger]
            means(a, x) && #[trigger] means(b, y) && v == x * y,
{
    if means(product(a, b), v) {
        let d = choose|d: Derivation| #[trigger]
            d.exact() && d.formula() == product(a, b) && d.result() == v;
        assert(d is Product);
        let da = *d->Product_0;
        let db = *d->Product_1;
        assert(da.exact() && da.formula() == a);
        assert(db.exact() && db.formula() == b);
        assert(means(a, da.result()) && means(b, db.result()));
    }
    if exists|x: real, y: real| #[trigger] means(a, x) && #[trigger] means(b, y) && v == x * y {
        let (x, y) = choose|x: real, y: real| #[trigger]
            means(a, x) && #[trigger] means(b, y) && v == x * y;
        let da = choose|d: Derivation| #[trigger] d.exact() && d.formula() == a && d.result() == x;
        let db = choose|d: Derivation| #[trigger] d.exact() && d.formula() == b && d.result() == y;
        let d = Derivation::Product(Box::new(da), Box::new(db), v);
        assert(d.exact() && d.formula() == product(a, b) && d.result() == v);
    }
}

/// A quotient means the quotient of what its operands mean, where the
/// divisor is not zero.
pub proof fn lemma_means_quotient(a: Formula, b: Formula, v: real)
    ensures
        means(quotient(a, b), v) <==> exists|x: real, y: real| #[trigger]
            means(a, x) && #[trigger] means(b, y) && y != 0real && v * y == x,
{
    if means(quotient(a, b), v) {
        let d = choose|d: Derivation| #[trigger]
            d.exact() && d.formula() == quotient(a, b) && d.result() == v;
        assert(d is Quotient);
        let da = *d->Quotient_0;
        let db = *d->Quotient_1;
        assert(da.exact() && da.formula() == a);
        assert(db.exact() && db.formula() == b);
        assert(means(a, da.result()) && means(b, db.result()));
    }
    if exists|x: real, y: real| #[trigger]
        means(a, x) && #[trigger] means(b, y) && y != 0real && v * y == x {
        let (x, y) = choose|x: real, y: real| #[trigger]
            means(a, x) && #[trigger] means(b, y) && y != 0real && v * y == x;
        let da = choose|d: Derivation| #[trigger] d.exact() && d.formula() == a && d.result() == x;
        let db = choose|d: Derivation| #[trigger] d.exact() && d.formula() == b && d.result() == y;
        let d = Derivation::Quotient(Box::new(da), Box::new(db), v);
        assert(d.exact() && d.formula() == quotient(a, b) && d.result() == v);
    }
}

/// A square root means the root, not negative, of what its operand means.
pub proof fn lemma_means_square_root(a: Formula, v: real)
    ensures
        means(square_root(a), v) <==> exists|x: real| #[trigger]
            means(a, x) && v >= 0real && v * v == x,
{
    if means(square_root(a), v) {
        let d = choose|d: Derivation| #[trigger]
            d.exact() && d.formula() == square_root(a) && d.result() == v;
        assert(d is SquareRoot);
        let da = *d->SquareRoot_0;
        assert(da.exact() && da.formula() == a);
        assert(means(a, da.result()));
    }
    if exists|x: real| #[trigger] means(a, x) && v >= 0real && v * v == x {
        let x = choose|x: real| #[trigger] means(a, x) && v >= 0real && v * v == x;
        let da = choose|d: Derivation| #[trigger] d.exact() && d.formula() == a && d.result() == x;
        let d = Derivation::SquareRoot(Box::new(da), v);
        assert(d.exact() && d.formula() == square_root(a) && d.result() == v);
    }
}

/// The third power is the cube.
pub proof fn lemma_cube(x: real)
    ensures
        real_power(x, 3) == x * x * x,
{
    reveal_with_fuel(real_power, 4);
    let first = real_power(x, 1);
    let square = real_power(x, 2);
    let cube = real_power(x, 3);
    assert(cube == x * x * x) by (nonlinear_arith)
        requires
            first == x * 1real,
            square == x * first,
            cube == x * square,
    ;
}

/// A third power means the cube of what its base means.
pub proof fn lemma_means_cube(a: Formula, v: real)
    ensures
        means(power(a, value(Real::three())), v) <==> exists|x: real| #[trigger]
            means(a, x) && v == x * x * x,
{
    crate::ieee_lemmas::lemma_small_constants();
    lemma_exact_integer(Real::three(), 3);
    let three = Derivation::Value(Real::three());
    assert(three.exact() && three.formula() == value(Real::three()) && three.result() == 3real);
    assert(3real.floor() == 3);
    if means(power(a, value(Real::three())), v) {
        let d = choose|d: Derivation| #[trigger]
            d.exact() && d.formula() == power(a, value(Real::three())) && d.result() == v;
        assert(d is Power);
        let da = *d->Power_0;
        let db = *d->Power_1;
        assert(da.exact() && da.formula() == a);
        assert(db.exact() && db.formula() == value(Real::three()));
        assert(db is Value);
        assert(db.result() == 3real);
        assert(means(a, da.result()));
        lemma_cube(da.result());
    }
    if exists|x: real| #[trigger] means(a, x) && v == x * x * x {
        let x = choose|x: real| #[trigger] means(a, x) && v == x * x * x;
        let da = choose|d: Derivation| #[trigger] d.exact() && d.formula() == a && d.result() == x;
        let d = Derivation::Power(Box::new(da), Box::new(three), v);
        lemma_cube(x);
        assert(d.exact() && d.formula() == power(a, value(Real::three())) && d.result() == v);
    }
}

/// A double that denotes the integer `n` is exactly `n`.
pub proof fn lemma_exact_integer(x: Real, n: int)
    requires
        x.denotes(n),
    ensures
        exact_value(x) == n as real,
{
    let unit = pow2(scale_exponent());
    vstd::arithmetic::power2::lemma_pow2_pos(scale_exponent());
    assert(((n * unit) as real) / (unit as real) == n as real) by (nonlinear_arith)
        requires
            unit > 0,
    ;
}

/// A double that lies between two fractions does so exactly.
pub proof fn lemma_exact_between(x: Real, low: int, high: int, parts: int)
    requires
        x.lies_between(low, high, parts),
    ensures
        low as real <= exact_value(x) * (parts as real) <= high as real,
{
    let unit = pow2(scale_exponent());
    vstd::arithmetic::power2::lemma_pow2_pos(scale_exponent());
    let s = x.scaled();
    assert(((s as real) / (unit as real)) * (parts as real) * (unit as real) == (s * parts) as real)
        by (nonlinear_arith)
        requires
            unit > 0,
    ;
    let v = exact_value(x) * (parts as real);
    assert(low as real <= v <= high as real) by (nonlinear_arith)
        requires
            v * (unit as real) == (s * parts) as real,
            low * unit <= s * parts <= high * unit,
            unit > 0,
    ;
}

/// The exact values of two numbers are ordered as the numbers are.
pub proof fn lemma_exact_order(a: Real, b: Real)
    requires
        a.finite(),
        b.finite(),
    ensures
        a.below(b) <==> exact_value(a) < exact_value(b),
        a.at_most(b) <==> exact_value(a) <= exact_value(b),
        a.equal(b) <==> exact_value(a) == exact_value(b),
{
    let unit = pow2(scale_exponent());
    vstd::arithmetic::power2::lemma_pow2_pos(scale_exponent());
    let x = a.scaled();
    let y = b.scaled();
    assert((x < y <==> (x as real) / (unit as real) < (y as real) / (unit as real)) && (x <= y <==> (
    x as real) / (unit as real) <= (y as real) / (unit as real)) && (x == y <==> (x as real) / (
    unit as real) == (y as real) / (unit as real))) by (nonlinear_arith)
        requires
            unit > 0,
    ;
}

} // verus!
