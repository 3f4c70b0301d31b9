//! The Keplerian ellipse: its three defining elements and the lengths
//! that follow from them.
//!
//! An ellipse is fixed by its eccentricity `e`, the place of its primary
//! focus and its periapsis distance `r_p`. Nothing else is stored:
//!
//! - semi-major axis `a = r_p / (1 - e)`
//! - semi-minor axis `b = a * sqrt(1 - e * e)`
//! - apoapsis `r_a = a * (1 + e)`
//! - focal distance `c = e * a`
//! - flattening `(a - b) / a`
//!
//! are evaluated on request, by these formulas as they stand. At `e = 1`
//! the divisor of `a` is zero; what the arithmetic returns for it, an
//! infinity in IEEE arithmetic, is passed on like any other number.

use vstd::prelude::*;

use crate::arithmetic::{
    difference, evaluates, product, quotient, square_root, sum, value, Arithmetic, Formula, Term,
};
use crate::error::InvalidInput;
use crate::ieee::{Real, ONE_BITS, TWO_BITS};
use crate::utils::{Eccentricity, Meters};

verus! {

/// A point of the orbital plane.
#[derive(Clone, Copy, Debug, PartialEq)]
pub struct Point {
    /// Abscissa.
    pub x: Meters,
    /// Ordinate.
    pub y: Meters,
}

/// The elements that define an [`Ellipse`].
pub struct Elements {
    pub eccentricity: Eccentricity,
    pub primary_focus: Point,
    pub periapsis: Meters,
}

/// A Keplerian orbit about a body at its primary focus. Made once, never
/// changed.
pub struct Ellipse {
    e: Eccentricity,
    f: Point,
    r_p: Meters,
}

impl View for Ellipse {
    type V = Elements;

    closed spec fn view(&self) -> Elements {
        Elements { eccentricity: self.e, primary_focus: self.f, periapsis: self.r_p }
    }
}

/// `(r_a - r_p) / (r_a + r_p)`: the eccentricity of the ellipse with the
/// given periapsis and apoapsis.
pub open spec fn eccentricity_formula(r_p: Meters, r_a: Meters) -> Formula {
    quotient(difference(value(r_a.0), value(r_p.0)), sum(value(r_a.0), value(r_p.0)))
}

/// `r_p / (1 - e)`.
pub open spec fn semi_major_axis_formula(elements: Elements) -> Formula {
    quotient(
        value(elements.periapsis.0),
        difference(value(Real::one()), value(elements.eccentricity@)),
    )
}

/// `a * sqrt(1 - e * e)`.
pub open spec fn semi_minor_axis_formula(elements: Elements) -> Formula {
    product(
        semi_major_axis_formula(elements),
        square_root(
            difference(
                value(Real::one()),
                product(value(elements.eccentricity@), value(elements.eccentricity@)),
            ),
        ),
    )
}

/// `(a - b) / a`.
pub open spec fn flattening_formula(elements: Elements) -> Formula {
    quotient(
        difference(semi_major_axis_formula(elements), semi_minor_axis_formula(elements)),
        semi_major_axis_formula(elements),
    )
}

/// `a * (1 + e)`.
pub open spec fn apoapsis_formula(elements: Elements) -> Formula {
    product(
        semi_major_axis_formula(elements),
        sum(value(Real::one()), value(elements.eccentricity@)),
    )
}

/// `e * a`.
pub open spec fn focal_distance_formula(elements: Elements) -> Formula {
    product(value(elements.eccentricity@), semi_major_axis_formula(elements))
}

/// `r_f + r_f'`: twice the semi-major axis, from the distances of one
/// point of the orbit to the two foci.
pub open spec fn two_a_formula(r_f: Meters, r_f_p: Meters) -> Formula {
    sum(value(r_f.0), value(r_f_p.0))
}

/// `|r_f - r_f'|`: the distance between the foci. The larger distance is
/// the minuend; where neither is larger, `r_f'` is.
pub open spec fn two_c_formula(r_f: Meters, r_f_p: Meters) -> Formula {
    if r_f.0.above(r_f_p.0) {
        difference(value(r_f.0), value(r_f_p.0))
    } else {
        difference(value(r_f_p.0), value(r_f.0))
    }
}

/// `(2c / 2) / (2a / 2)`: the eccentricity, from the distances of one
/// point of the orbit to the two foci.
pub open spec fn focal_eccentricity_formula(r_f: Meters, r_f_p: Meters) -> Formula {
    quotient(
        quotient(two_c_formula(r_f, r_f_p), value(Real::two())),
        quotient(two_a_formula(r_f, r_f_p), value(Real::two())),
    )
}

impl Ellipse {
    /// The ellipse of eccentricity `e` about `f` that comes as close to it
    /// as `r_p`.
    pub fn new(e: Eccentricity, f: Point, r_p: Meters) -> (ellipse: Ellipse)
        ensures
            ellipse@.eccentricity == e,
            ellipse@.primary_focus == f,
            ellipse@.periapsis == r_p,
    {
        Ellipse { e, f, r_p }
    }

    /// The ellipse about `f` between the distances `r_p` and `r_a`.
    ///
    /// Its eccentricity is a value of `(r_a - r_p) / (r_a + r_p)`. The
    /// ellipse is made of that value if it is a number that is at least
    /// zero, and refused otherwise.
    pub fn from_periapsis_apoapsis<A: Arithmetic>(
        fpu: &A,
        r_p: Meters,
        r_a: Meters,
        f: Point,
    ) -> (r: Result<Ellipse, InvalidInput>)
        ensures
            match r {
                Ok(ellipse) => ellipse@.periapsis == r_p && ellipse@.primary_focus == f
                    && evaluates(fpu, eccentricity_formula(r_p, r_a), ellipse@.eccentricity@)
                    && ellipse@.eccentricity@.at_least(Real::zero()),
                Err(fault) => fault == InvalidInput::EccentricityNegative && exists|e: Real|
                    #[trigger] evaluates(fpu, eccentricity_formula(r_p, r_a), e) && !e.at_least(
                        Real::zero(),
                    ),
            },
    {
        let apo = Term::given(fpu, r_a.value());
        let peri = Term::given(fpu, r_p.value());
        let e = apo.minus(fpu, peri).over(fpu, apo.plus(fpu, peri));
        proof {
            e.lemma_evaluates(fpu);
        }
        match Eccentricity::new(e.number) {
            Ok(eccentricity) => Ok(Ellipse { e: eccentricity, f, r_p }),
            Err(fault) => Err(fault),
        }
    }

    pub fn eccentricity(&self) -> (e: Eccentricity)
        ensures
            e == self@.eccentricity,
    {
        self.e
    }

    /// Where the attracting body is.
    pub fn primary_focus(&self) -> (f: Point)
        ensures
            f == self@.primary_focus,
    {
        self.f
    }

    /// Distance from the primary focus to the nearest point of the orbit.
    pub fn periapsis(&self) -> (r_p: Meters)
        ensures
            r_p == self@.periapsis,
    {
        self.r_p
    }

    fn semi_major_axis_term<A: Arithmetic>(&self, fpu: &A) -> (t: Term)
        ensures
            t.sound(fpu),
            t.formula() == semi_major_axis_formula(self@),
    {
        let one = Term::given(fpu, Real::from_bits(ONE_BITS));
        let e = Term::given(fpu, self.eccentricity().value());
        Term::given(fpu, self.periapsis().value()).over(fpu, one.minus(fpu, e))
    }

    fn semi_minor_axis_term<A: Arithmetic>(&self, fpu: &A) -> (t: Term)
        ensures
            t.sound(fpu),
            t.formula() == semi_minor_axis_formula(self@),
    {
        let one = Term::given(fpu, Real::from_bits(ONE_BITS));
        let e = Term::given(fpu, self.eccentricity().value());
        self.semi_major_axis_term(fpu).times(
            fpu,
            one.minus(fpu, e.times(fpu, e)).root(fpu),
        )
    }

    /// Half of the long axis, `a`.
    pub fn semi_major_axis<A: Arithmetic>(&self, fpu: &A) -> (a: Meters)
        ensures
            evaluates(fpu, semi_major_axis_formula(self@), a.0),
    {
        let t = self.semi_major_axis_term(fpu);
        proof {
            t.lemma_evaluates(fpu);
        }
        Meters(t.number)
    }

    /// Half of the short axis, `b`.
    pub fn semi_minor_axis<A: Arithmetic>(&self, fpu: &A) -> (b: Meters)
        ensures
            evaluates(fpu, semi_minor_axis_formula(self@), b.0),
    {
        let t = self.semi_minor_axis_term(fpu);
        proof {
            t.lemma_evaluates(fpu);
        }
        Meters(t.number)
    }

    /// The shape of the ellipse as the share of the semi-major axis by
    /// which the semi-minor axis falls short of it.
    pub fn flattening<A: Arithmetic>(&self, fpu: &A) -> (flattening: Real)
        ensures
            evaluates(fpu, flattening_formula(self@), flattening),
    {
        let a = self.semi_major_axis_term(fpu).minus(fpu, self.semi_minor_axis_term(fpu));
        let t = a.over(fpu, self.semi_major_axis_term(fpu));
        proof {
            t.lemma_evaluates(fpu);
        }
        t.number
    }

    /// Distance from the primary focus to the farthest point of the orbit.
    pub fn apoapsis<A: Arithmetic>(&self, fpu: &A) -> (r_a: Meters)
        ensures
            evaluates(fpu, apoapsis_formula(self@), r_a.0),
    {
        let one = Term::given(fpu, Real::from_bits(ONE_BITS));
        let e = Term::given(fpu, self.eccentricity().value());
        let t = self.semi_major_axis_term(fpu).times(fpu, one.plus(fpu, e));
        proof {
            t.lemma_evaluates(fpu);
        }
        Meters(t.number)
    }

    /// Distance from the center of the ellipse to a focus, `c`.
    pub fn focal_distance<A: Arithmetic>(&self, fpu: &A) -> (c: Meters)
        ensures
            evaluates(fpu, focal_distance_formula(self@), c.0),
    {
        let e = Term::given(fpu, self.eccentricity().value());
        let t = e.times(fpu, self.semi_major_axis_term(fpu));
        proof {
            t.lemma_evaluates(fpu);
        }
        Meters(t.number)
    }
}

fn two_a_term<A: Arithmetic>(fpu: &A, r_f: Meters, r_f_p: Meters) -> (t: Term)
    ensures
        t.sound(fpu),
        t.formula() == two_a_formula(r_f, r_f_p),
{
    Term::given(fpu, r_f.0).plus(fpu, Term::given(fpu, r_f_p.0))
}

fn two_c_term<A: Arithmetic>(fpu: &A, r_f: Meters, r_f_p: Meters) -> (t: Term)
    ensures
        t.sound(fpu),
        t.formula() == two_c_formula(r_f, r_f_p),
{
    if r_f.value().is_above(r_f_p.value()) {
        Term::given(fpu, r_f.0).minus(fpu, Term::given(fpu, r_f_p.0))
    } else {
        Term::given(fpu, r_f_p.0).minus(fpu, Term::given(fpu, r_f.0))
    }
}

/// Twice the semi-major axis, from the distances `r_f` and `r_f_p` of one
/// point of the orbit to the primary and to the secondary focus.
pub fn calc_2a<A: Arithmetic>(fpu: &A, r_f: Meters, r_f_p: Meters) -> (two_a: Meters)
    ensures
        evaluates(fpu, two_a_formula(r_f, r_f_p), two_a.0),
{
    let t = two_a_term(fpu, r_f, r_f_p);
    proof {
        t.lemma_evaluates(fpu);
    }
    Meters(t.number)
}

/// The distance between the two foci, from the distances `r_f` and `r_f_p`
/// of one point of the orbit to the primary and to the secondary focus.
pub fn calc_2c<A: Arithmetic>(fpu: &A, r_f: Meters, r_f_p: Meters) -> (two_c: Meters)
    ensures
        evaluates(fpu, two_c_formula(r_f, r_f_p), two_c.0),
{
    let t = two_c_term(fpu, r_f, r_f_p);
    proof {
        t.lemma_evaluates(fpu);
    }
    Meters(t.number)
}

/// The eccentricity of an orbit, from the distances `r_f` and `r_f_p` of
/// one of its points to the primary and to the secondary focus.
///
/// It is a value of `c / a` with `c` half the distance between the foci
/// and `a` half the sum of the two distances, refused unless it is a
/// number that is at least zero.
pub fn calc_ecc<A: Arithmetic>(fpu: &A, r_f: Meters, r_f_p: Meters) -> (r: Result<
    Eccentricity,
    InvalidInput,
>)
    ensures
        match r {
            Ok(eccentricity) => evaluates(
                fpu,
                focal_eccentricity_formula(r_f, r_f_p),
                eccentricity@,
            ) && eccentricity@.at_least(Real::zero()),
            Err(fault) => fault == InvalidInput::EccentricityNegative && exists|e: Real|
                #[trigger] evaluates(fpu, focal_eccentricity_formula(r_f, r_f_p), e)
                    && !e.at_least(Real::zero()),
        },
{
    let two = Term::given(fpu, Real::from_bits(TWO_BITS));
    let two_a = two_a_term(fpu, r_f, r_f_p);
    let two_c = two_c_term(fpu, r_f, r_f_p);
    let a = two_a.over(fpu, two);
    let c = two_c.over(fpu, two);
    let e = c.over(fpu, a);
    proof {
        e.lemma_evaluates(fpu);
    }
    Eccentricity::new(e.number)
}

} // verus!
