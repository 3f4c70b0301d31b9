//! The rounding arithmetic that formulas are evaluated in, and the
//! formulas themselves as mathematical objects.
//!
//! The library compares numbers itself, on their bit patterns. Sums,
//! differences, products, quotients, roots and powers it asks of an
//! [`Arithmetic`], such as one that hands each operation to the machine's
//! floating-point unit. Nothing is assumed of an implementation: a contract
//! that speaks of a computed number says by which operations, on which
//! operands, the implementation produced it.

use vstd::prelude::*;

use crate::ieee::Real;

verus! {

/// The six operations that the formulas of this library are made of.
pub trait Arithmetic {
    /// `a + b`.
    fn sum(&self, a: Real, b: Real) -> Real;

    /// `a - b`.
    fn difference(&self, a: Real, b: Real) -> Real;

    /// `a * b`.
    fn product(&self, a: Real, b: Real) -> Real;

    /// `a / b`.
    fn quotient(&self, a: Real, b: Real) -> Real;

    /// The square root of `a`.
    fn square_root(&self, a: Real) -> Real;

    /// `base` raised to `exponent`.
    fn power(&self, base: Real, exponent: Real) -> Real;
}

/// A closed-form expression over given numbers.
pub enum Formula {
    /// A given number.
    Value(Real),
    Sum(Box<Formula>, Box<Formula>),
    Difference(Box<Formula>, Box<Formula>),
    Product(Box<Formula>, Box<Formula>),
    Quotient(Box<Formula>, Box<Formula>),
    SquareRoot(Box<Formula>),
    Power(Box<Formula>, Box<Formula>),
}

/// The formula that is the number `x`.
pub open spec fn value(x: Real) -> Formula {
    Formula::Value(x)
}

/// `a + b`.
pub open spec fn sum(a: Formula, b: Formula) -> Formula {
    Formula::Sum(Box::new(a), Box::new(b))
}

/// `a - b`.
pub open spec fn difference(a: Formula, b: Formula) -> Formula {
    Formula::Difference(Box::new(a), Box::new(b))
}

/// `a * b`.
pub open spec fn product(a: Formula, b: Formula) -> Formula {
    Formula::Product(Box::new(a), Box::new(b))
}

/// `a / b`.
pub open spec fn quotient(a: Formula, b: Formula) -> Formula {
    Formula::Quotient(Box::new(a), Box::new(b))
}

/// The square root of `a`.
pub open spec fn square_root(a: Formula) -> Formula {
    Formula::SquareRoot(Box::new(a))
}

/// `base` raised to `exponent`.
pub open spec fn power(base: Formula, exponent: Formula) -> Formula {
    Formula::Power(Box::new(base), Box::new(exponent))
}

/// The record of one evaluation of a formula: the formula, with the number
/// that each of its operations returned.
pub enum Evaluation {
    /// A given number.
    Value(Real),
    Sum(Box<Evaluation>, Box<Evaluation>, Real),
    Difference(Box<Evaluation>, Box<Evaluation>, Real),
    Product(Box<Evaluation>, Box<Evaluation>, Real),
    Quotient(Box<Evaluation>, Box<Evaluation>, Real),
    SquareRoot(Box<Evaluation>, Real),
    Power(Box<Evaluation>, Box<Evaluation>, Real),
}

impl Evaluation {
    /// The number that the evaluation ended with.
    pub open spec fn result(self) -> Real {
        match self {
            Evaluation::Value(x) => x,
            Evaluation::Sum(_, _, r) => r,
            Evaluation::Difference(_, _, r) => r,
            Evaluation::Product(_, _, r) => r,
            Evaluation::Quotient(_, _, r) => r,
            Evaluation::SquareRoot(_, r) => r,
            Evaluation::Power(_, _, r) => r,
        }
    }

    /// The formula that was evaluated.
    pub open spec fn formula(self) -> Formula
        decreases self,
    {
        match self {
            Evaluation::Value(x) => value(x),
            Evaluation::Sum(a, b, _) => sum(a.formula(), b.formula()),
            Evaluation::Difference(a, b, _) => difference(a.formula(), b.formula()),
            Evaluation::Product(a, b, _) => product(a.formula(), b.formula()),
            Evaluation::Quotient(a, b, _) => quotient(a.formula(), b.formula()),
            Evaluation::SquareRoot(a, _) => square_root(a.formula()),
            Evaluation::Power(a, b, _) => power(a.formula(), b.formula()),
        }
    }

    /// Every operation of the record is one that `fpu` carried out: on
    /// the results recorded for its operands it returned the result
    /// recorded for it.
    pub open spec fn carried_out<A: Arithmetic>(self, fpu: &A) -> bool
        decreases self,
    {
        match self {
            Evaluation::Value(_) => true,
            Evaluation::Sum(a, b, r) => a.carried_out(fpu) && b.carried_out(fpu) && call_ensures(
                A::sum,
                (fpu, a.result(), b.result()),
                r,
            ),
            Evaluation::Difference(a, b, r) => a.carried_out(fpu) && b.carried_out(fpu)
                && call_ensures(A::difference, (fpu, a.result(), b.result()), r),
            Evaluation::Product(a, b, r) => a.carried_out(fpu) && b.carried_out(fpu)
                && call_ensures(A::product, (fpu, a.result(), b.result()), r),
            Evaluation::Quotient(a, b, r) => a.carried_out(fpu) && b.carried_out(fpu)
                && call_ensures(A::quotient, (fpu, a.result(), b.result()), r),
            Evaluation::SquareRoot(a, r) => a.carried_out(fpu) && call_ensures(
                A::square_root,
                (fpu, a.result()),
                r,
            ),
            Evaluation::Power(a, b, r) => a.carried_out(fpu) && b.carried_out(fpu)
                && call_ensures(A::power, (fpu, a.result(), b.result()), r),
        }
    }
}

/// `result` is a value of `formula` in the arithmetic `fpu`: each
/// operation of the formula was carried out by `fpu` on values of its
/// operands, and the last of them returned `result`.
pub open spec fn evaluates<A: Arithmetic>(fpu: &A, formula: Formula, result: Real) -> bool {
    exists|record: Evaluation| #[trigger]
        record.carried_out(fpu) && record.formula() == formula && record.result() == result
}

/// A given number has itself as its only value.
pub proof fn lemma_evaluates_value<A: Arithmetic>(fpu: &A, x: Real, r: Real)
    ensures
        evaluates(fpu, value(x), r) <==> r == x,
{
    if r == x {
        let record = Evaluation::Value(x);
        assert(record.carried_out(fpu) && record.formula() == value(x) && record.result() == r);
    }
    if evaluates(fpu, value(x), r) {
        let record = choose|record: Evaluation| #[trigger]
            record.carried_out(fpu) && record.formula() == value(x) && record.result() == r;
        assert(record is Value);
    }
}

/// A sum has the values that `fpu` returns for it on values of its
/// operands.
pub proof fn lemma_evaluates_sum<A: Arithmetic>(fpu: &A, a: Formula, b: Formula, r: Real)
    ensures
        evaluates(fpu, sum(a, b), r) <==> exists|x: Real, y: Real| #[trigger]
            evaluates(fpu, a, x) && #[trigger] evaluates(fpu, b, y) && call_ensures(
                A::sum,
                (fpu, x, y),
                r,
            ),
{
    if evaluates(fpu, sum(a, b), r) {
        let record = choose|record: Evaluation| #[trigger]
            record.carried_out(fpu) && record.formula() == sum(a, b) && record.result() == r;
        assert(record is Sum);
        let left = *record->Sum_0;
        let right = *record->Sum_1;
        assert(left.carried_out(fpu) && left.formula() == a);
        assert(right.carried_out(fpu) && right.formula() == b);
        assert(evaluates(fpu, a, left.result()) && evaluates(fpu, b, right.result()));
    }
    if exists|x: Real, y: Real| #[trigger]
        evaluates(fpu, a, x) && #[trigger] evaluates(fpu, b, y) && call_ensures(
            A::sum,
            (fpu, x, y),
            r,
        ) {
        let (x, y) = choose|x: Real, y: Real| #[trigger]
            evaluates(fpu, a, x) && #[trigger] evaluates(fpu, b, y) && call_ensures(
                A::sum,
                (fpu, x, y),
                r,
            );
        let left = choose|record: Evaluation| #[trigger]
            record.carried_out(fpu) && record.formula() == a && record.result() == x;
        let right = choose|record: Evaluation| #[trigger]
            record.carried_out(fpu) && record.formula() == b && record.result() == y;
        let record = Evaluation::Sum(Box::new(left), Box::new(right), r);
        assert(record.carried_out(fpu) && record.formula() == sum(a, b) && record.result() == r);
    }
}

/// A difference has the values that `fpu` returns for it on values of its
/// operands.
pub proof fn lemma_evaluates_difference<A: Arithmetic>(fpu: &A, a: Formula, b: Formula, r: Real)
    ensures
        evaluates(fpu, difference(a, b), r) <==> exists|x: Real, y: Real| #[trigger]
            evaluates(fpu, a, x) && #[trigger] evaluates(fpu, b, y) && call_ensures(
                A::difference,
                (fpu, x, y),
                r,
            ),
{
    if evaluates(fpu, difference(a, b), r) {
        let record = choose|record: Evaluation| #[trigger]
            record.carried_out(fpu) && record.formula() == difference(a, b) && record.result() == r;
        assert(record is Difference);
        let left = *record->Difference_0;
        let right = *record->Difference_1;
        assert(left.carried_out(fpu) && left.formula() == a);
        assert(right.carried_out(fpu) && right.formula() == b);
        assert(evaluates(fpu, a, left.result()) && evaluates(fpu, b, right.result()));
    }
    if exists|x: Real, y: Real| #[trigger]
        evaluates(fpu, a, x) && #[trigger] evaluates(fpu, b, y) && call_ensures(
            A::difference,
            (fpu, x, y),
            r,
        ) {
        let (x, y) = choose|x: Real, y: Real| #[trigger]
            evaluates(fpu, a, x) && #[trigger] evaluates(fpu, b, y) && call_ensures(
                A::difference,
                (fpu, x, y),
                r,
            );
        let left = choose|record: Evaluation| #[trigger]
            record.carried_out(fpu) && record.formula() == a && record.result() == x;
        let right = choose|record: Evaluation| #[trigger]
            record.carried_out(fpu) && record.formula() == b && record.result() == y;
        let record = Evaluation::Difference(Box::new(left), Box::new(right), r);
        assert(record.carried_out(fpu) && record.formula() == difference(a, b) && record.result() == r);
    }
}

/// A product has the values that `fpu` returns for it on values of its
/// operands.
pub proof fn lemma_evaluates_product<A: Arithmetic>(fpu: &A, a: Formula, b: Formula, r: Real)
    ensures
        evaluates(fpu, product(a, b), r) <==> exists|x: Real, y: Real| #[trigger]
            evaluates(fpu, a, x) && #[trigger] evaluates(fpu, b, y) && call_ensures(
                A::product,
                (fpu, x, y),
                r,
            ),
{
    if evaluates(fpu, product(a, b), r) {
        let record = choose|record: Evaluation| #[trigger]
            record.carried_out(fpu) && record.formula() == product(a, b) && record.result() == r;
        assert(record is Product);
        let left = *record->Product_0;
        let right = *record->Product_1;
        assert(left.carried_out(fpu) && left.formula() == a);
        assert(right.carried_out(fpu) && right.formula() == b);
        assert(evaluates(fpu, a, left.result()) && evaluates(fpu, b, right.result()));
    }
    if exists|x: Real, y: Real| #[trigger]
        evaluates(fpu, a, x) && #[trigger] evaluates(fpu, b, y) && call_ensures(
            A::product,
            (fpu, x, y),
            r,
        ) {
        let (x, y) = choose|x: Real, y: Real| #[trigger]
            evaluates(fpu, a, x) && #[trigger] evaluates(fpu, b, y) && call_ensures(
                A::product,
                (fpu, x, y),
                r,
            );
        let left = choose|record: Evaluation| #[trigger]
            record.carried_out(fpu) && record.formula() == a && record.result() == x;
        let right = choose|record: Evaluation| #[trigger]
            record.carried_out(fpu) && record.formula() == b && record.result() == y;
        let record = Evaluation::Product(Box::new(left), Box::new(right), r);
        assert(record.carried_out(fpu) && record.formula() == product(a, b) && record.result() == r);
    }
}

/// A quotient has the values that `fpu` returns for it on values of its
/// operands.
pub proof fn lemma_evaluates_quotient<A: Arithmetic>(fpu: &A, a: Formula, b: Formula, r: Real)
    ensures
        evaluates(fpu, quotient(a, b), r) <==> exists|x: Real, y: Real| #[trigger]
            evaluates(fpu, a, x) && #[trigger] evaluates(fpu, b, y) && call_ensures(
                A::quotient,
                (fpu, x, y),
                r,
            ),
{
    if evaluates(fpu, quotient(a, b), r) {
        let record = choose|record: Evaluation| #[trigger]
            record.carried_out(fpu) && record.formula() == quotient(a, b) && record.result() == r;
        assert(record is Quotient);
        let left = *record->Quotient_0;
        let right = *record->Quotient_1;
        assert(left.carried_out(fpu) && left.formula() == a);
        assert(right.carried_out(fpu) && right.formula() == b);
        assert(evaluates(fpu, a, left.result()) && evaluates(fpu, b, right.result()));
    }
    if exists|x: Real, y: Real| #[trigger]
        evaluates(fpu, a, x) && #[trigger] evaluates(fpu, b, y) && call_ensures(
            A::quotient,
            (fpu, x, y),
            r,
        ) {
        let (x, y) = choose|x: Real, y: Real| #[trigger]
            evaluates(fpu, a, x) && #[trigger] evaluates(fpu, b, y) && call_ensures(
                A::quotient,
                (fpu, x, y),
                r,
            );
        let left = choose|record: Evaluation| #[trigger]
            record.carried_out(fpu) && record.formula() == a && record.result() == x;
        let right = choose|record: Evaluation| #[trigger]
            record.carried_out(fpu) && record.formula() == b && record.result() == y;
        let record = Evaluation::Quotient(Box::new(left), Box::new(right), r);
        assert(record.carried_out(fpu) && record.formula() == quotient(a, b) && record.result() == r);
    }
}

/// A power has the values that `fpu` returns for it on values of its
/// operands.
pub proof fn lemma_evaluates_power<A: Arithmetic>(fpu: &A, a: Formula, b: Formula, r: Real)
    ensures
        evaluates(fpu, power(a, b), r) <==> exists|x: Real, y: Real| #[trigger]
            evaluates(fpu, a, x) && #[trigger] evaluates(fpu, b, y) && call_ensures(
                A::power,
                (fpu, x, y),
                r,
            ),
{
    if evaluates(fpu, power(a, b), r) {
        let record = choose|record: Evaluation| #[trigger]
            record.carried_out(fpu) && record.formula() == power(a, b) && record.result() == r;
        assert(record is Power);
        let left = *record->Power_0;
        let right = *record->Power_1;
        assert(left.carried_out(fpu) && left.formula() == a);
        assert(right.carried_out(fpu) && right.formula() == b);
        assert(evaluates(fpu, a, left.result()) && evaluates(fpu, b, right.result()));
    }
    if exists|x: Real, y: Real| #[trigger]
        evaluates(fpu, a, x) && #[trigger] evaluates(fpu, b, y) && call_ensures(
            A::power,
            (fpu, x, y),
            r,
        ) {
        let (x, y) = choose|x: Real, y: Real| #[trigger]
            evaluates(fpu, a, x) && #[trigger] evaluates(fpu, b, y) && call_ensures(
                A::power,
                (fpu, x, y),
                r,
            );
        let left = choose|record: Evaluation| #[trigger]
            record.carried_out(fpu) && record.formula() == a && record.result() == x;
        let right = choose|record: Evaluation| #[trigger]
            record.carried_out(fpu) && record.formula() == b && record.result() == y;
        let record = Evaluation::Power(Box::new(left), Box::new(right), r);
        assert(record.carried_out(fpu) && record.formula() == power(a, b) && record.result() == r);
    }
}

/// A square root has the values that `fpu` returns for it on values of
/// its operand.
pub proof fn lemma_evaluates_square_root<A: Arithmetic>(fpu: &A, a: Formula, r: Real)
    ensures
        evaluates(fpu, square_root(a), r) <==> exists|x: Real| #[trigger]
            evaluates(fpu, a, x) && call_ensures(A::square_root, (fpu, x), r),
{
    if evaluates(fpu, square_root(a), r) {
        let record = choose|record: Evaluation| #[trigger]
            record.carried_out(fpu) && record.formula() == square_root(a) && record.result()
                == r;
        assert(record is SquareRoot);
        let inner = *record->SquareRoot_0;
        assert(inner.carried_out(fpu) && inner.formula() == a);
        assert(evaluates(fpu, a, inner.result()));
    }
    if exists|x: Real| #[trigger]
        evaluates(fpu, a, x) && call_ensures(A::square_root, (fpu, x), r) {
        let x = choose|x: Real| #[trigger]
            evaluates(fpu, a, x) && call_ensures(A::square_root, (fpu, x), r);
        let inner = choose|record: Evaluation| #[trigger]
            record.carried_out(fpu) && record.formula() == a && record.result() == x;
        let record = Evaluation::SquareRoot(Box::new(inner), r);
        assert(record.carried_out(fpu) && record.formula() == square_root(a) && record.result()
            == r);
    }
}

/// Each operation of the arithmetic has one result: the same operands
/// give the same number, whenever and wherever they are handed in.
pub open spec fn single_valued<A: Arithmetic>(fpu: &A) -> bool {
    &&& forall|a: Real, b: Real, r1: Real, r2: Real| #[trigger]
        call_ensures(A::sum, (fpu, a, b), r1) && #[trigger] call_ensures(A::sum, (fpu, a, b), r2)
            ==> r1 == r2
    &&& forall|a: Real, b: Real, r1: Real, r2: Real| #[trigger]
        call_ensures(A::difference, (fpu, a, b), r1) && #[trigger] call_ensures(A::difference, (fpu, a, b), r2)
            ==> r1 == r2
    &&& forall|a: Real, b: Real, r1: Real, r2: Real| #[trigger]
        call_ensures(A::product, (fpu, a, b), r1) && #[trigger] call_ensures(A::product, (fpu, a, b), r2)
            ==> r1 == r2
    &&& forall|a: Real, b: Real, r1: Real, r2: Real| #[trigger]
        call_ensures(A::quotient, (fpu, a, b), r1) && #[trigger] call_ensures(A::quotient, (fpu, a, b), r2)
            ==> r1 == r2
    &&& forall|a: Real, b: Real, r1: Real, r2: Real| #[trigger]
        call_ensures(A::power, (fpu, a, b), r1) && #[trigger] call_ensures(A::power, (fpu, a, b), r2)
            ==> r1 == r2
    &&& forall|a: Real, r1: Real, r2: Real| #[trigger]
        call_ensures(A::square_root, (fpu, a), r1) && #[trigger] call_ensures(
            A::square_root,
            (fpu, a),
            r2,
        ) ==> r1 == r2
}

/// In an arithmetic whose operations have one result each, two
/// evaluations of one formula end with the same number.
pub proof fn lemma_evaluations_agree<A: Arithmetic>(fpu: &A, first: Evaluation, second: Evaluation)
    requires
        single_valued(fpu),
        first.carried_out(fpu),
        second.carried_out(fpu),
        first.formula() == second.formula(),
    ensures
        first.result() == second.result(),
    decreases first,
{
    match (first, second) {
        (Evaluation::Sum(a1, b1, _), Evaluation::Sum(a2, b2, _)) => {
            lemma_evaluations_agree(fpu, *a1, *a2);
            lemma_evaluations_agree(fpu, *b1, *b2);
        },
        (Evaluation::Difference(a1, b1, _), Evaluation::Difference(a2, b2, _)) => {
            lemma_evaluations_agree(fpu, *a1, *a2);
            lemma_evaluations_agree(fpu, *b1, *b2);
        },
        (Evaluation::Product(a1, b1, _), Evaluation::Product(a2, b2, _)) => {
            lemma_evaluations_agree(fpu, *a1, *a2);
            lemma_evaluations_agree(fpu, *b1, *b2);
        },
        (Evaluation::Quotient(a1, b1, _), Evaluation::Quotient(a2, b2, _)) => {
            lemma_evaluations_agree(fpu, *a1, *a2);
            lemma_evaluations_agree(fpu, *b1, *b2);
        },
        (Evaluation::Power(a1, b1, _), Evaluation::Power(a2, b2, _)) => {
            lemma_evaluations_agree(fpu, *a1, *a2);
            lemma_evaluations_agree(fpu, *b1, *b2);
        },
        (Evaluation::SquareRoot(a1, _), Evaluation::SquareRoot(a2, _)) => {
            lemma_evaluations_agree(fpu, *a1, *a2);
        },
        _ => {},
    }
}

/// Identical input gives identical output: in an arithmetic whose
/// operations have one result each, a formula has one value.
pub proof fn lemma_one_value<A: Arithmetic>(fpu: &A, formula: Formula, x: Real, y: Real)
    requires
        single_valued(fpu),
        evaluates(fpu, formula, x),
        evaluates(fpu, formula, y),
    ensures
        x == y,
{
    let first = choose|record: Evaluation| #[trigger]
        record.carried_out(fpu) && record.formula() == formula && record.result() == x;
    let second = choose|record: Evaluation| #[trigger]
        record.carried_out(fpu) && record.formula() == formula && record.result() == y;
    lemma_evaluations_agree(fpu, first, second);
}

/// A number together with the record of how it was obtained.
#[derive(Clone, Copy)]
pub(crate) struct Term {
    /// The number.
    pub(crate) number: Real,
    /// The evaluation that ended with it.
    pub(crate) record: Ghost<Evaluation>,
}

impl Term {
    /// The number is what the recorded evaluation ended with, and `fpu`
    /// carried that evaluation out.
    pub(crate) open spec fn sound<A: Arithmetic>(self, fpu: &A) -> bool {
        self.record@.carried_out(fpu) && self.record@.result() == self.number
    }

    /// The formula that the number is a value of.
    pub(crate) open spec fn formula(self) -> Formula {
        self.record@.formula()
    }

    /// A sound term is a value of its formula.
    pub(crate) proof fn lemma_evaluates<A: Arithmetic>(self, fpu: &A)
        requires
            self.sound(fpu),
        ensures
            evaluates(fpu, self.formula(), self.number),
    {
    }

    /// A given number, as the formula that it is.
    pub(crate) fn given<A: Arithmetic>(fpu: &A, x: Real) -> (t: Term)
        ensures
            t.sound(fpu),
            t.number == x,
            t.formula() == value(x),
    {
        Term { number: x, record: Ghost(Evaluation::Value(x)) }
    }

    /// `self + other`.
    pub(crate) fn plus<A: Arithmetic>(self, fpu: &A, other: Term) -> (t: Term)
        requires
            self.sound(fpu),
            other.sound(fpu),
        ensures
            t.sound(fpu),
            t.formula() == sum(self.formula(), other.formula()),
    {
        let number = fpu.sum(self.number, other.number);
        Term {
            number,
            record: Ghost(Evaluation::Sum(Box::new(self.record@), Box::new(other.record@), number)),
        }
    }

    /// `self - other`.
    pub(crate) fn minus<A: Arithmetic>(self, fpu: &A, other: Term) -> (t: Term)
        requires
            self.sound(fpu),
            other.sound(fpu),
        ensures
            t.sound(fpu),
            t.formula() == difference(self.formula(), other.formula()),
    {
        let number = fpu.difference(self.number, other.number);
        Term {
            number,
            record: Ghost(Evaluation::Difference(Box::new(self.record@), Box::new(other.record@), number)),
        }
    }

    /// `self * other`.
    pub(crate) fn times<A: Arithmetic>(self, fpu: &A, other: Term) -> (t: Term)
        requires
            self.sound(fpu),
            other.sound(fpu),
        ensures
            t.sound(fpu),
            t.formula() == product(self.formula(), other.formula()),
    {
        let number = fpu.product(self.number, other.number);
        Term {
            number,
            record: Ghost(Evaluation::Product(Box::new(self.record@), Box::new(other.record@), number)),
        }
    }

    /// `self / other`.
    pub(crate) fn over<A: Arithmetic>(self, fpu: &A, other: Term) -> (t: Term)
        requires
            self.sound(fpu),
            other.sound(fpu),
        ensures
            t.sound(fpu),
            t.formula() == quotient(self.formula(), other.formula()),
    {
        let number = fpu.quotient(self.number, other.number);
        Term {
            number,
            record: Ghost(Evaluation::Quotient(Box::new(self.record@), Box::new(other.record@), number)),
        }
    }

    /// `self` raised to `other`.
    pub(crate) fn raised<A: Arithmetic>(self, fpu: &A, other: Term) -> (t: Term)
        requires
            self.sound(fpu),
            other.sound(fpu),
        ensures
            t.sound(fpu),
            t.formula() == power(self.formula(), other.formula()),
    {
        let number = fpu.power(self.number, other.number);
        Term {
            number,
            record: Ghost(Evaluation::Power(Box::new(self.record@), Box::new(other.record@), number)),
        }
    }

    /// The square root of `self`.
    pub(crate) fn root<A: Arithmetic>(self, fpu: &A) -> (t: Term)
        requires
            self.sound(fpu),
        ensures
            t.sound(fpu),
            t.formula() == square_root(self.formula()),
    {
        let number = fpu.square_root(self.number);
        Term { number, record: Ghost(Evaluation::SquareRoot(Box::new(self.record@), number)) }
    }
}

} // verus!
