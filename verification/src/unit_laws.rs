//! What the conversions between units satisfy in exact arithmetic.

use vstd::prelude::*;

use crate::arithmetic::{product, quotient, value};
use crate::exact::{
    exact_value, lemma_exact_integer, lemma_means_product, lemma_means_quotient,
    lemma_means_value, means,
};
use crate::utils::{lemma_constants, thousand, Kilometers, Meters};

verus! {

/// Meters to kilometers and back is the same length.
pub proof fn lemma_meters_round_trip(m: Meters, x: real)
    requires
        means(product(quotient(value(m.0), value(thousand())), value(thousand())), x),
    ensures
        x == exact_value(m.0),
{
    let km = quotient(value(m.0), value(thousand()));
    lemma_constants();
    lemma_exact_integer(thousand(), 1000);
    lemma_means_product(km, value(thousand()), x);
    let (k, t) = choose|p: real, q: real| #[trigger]
        means(km, p) && #[trigger] means(value(thousand()), q) && x == p * q;
    lemma_means_value(thousand(), t);
    lemma_means_quotient(value(m.0), value(thousand()), k);
    let (n, d) = choose|p: real, q: real| #[trigger]
        means(value(m.0), p) && #[trigger] means(value(thousand()), q) && q != 0real && k * q
            == p;
    lemma_means_value(m.0, n);
    lemma_means_value(thousand(), d);
}

/// Kilometers to meters and back is the same length.
pub proof fn lemma_kilometers_round_trip(km: Kilometers, x: real)
    requires
        means(quotient(product(value(km.0), value(thousand())), value(thousand())), x),
    ensures
        x == exact_value(km.0),
{
    let m = product(value(km.0), value(thousand()));
    lemma_constants();
    lemma_exact_integer(thousand(), 1000);
    lemma_means_quotient(m, value(thousand()), x);
    let (n, d) = choose|p: real, q: real| #[trigger]
        means(m, p) && #[trigger] means(value(thousand()), q) && q != 0real && x * q == p;
    lemma_means_value(thousand(), d);
    lemma_means_product(value(km.0), value(thousand()), n);
    let (k, t) = choose|p: real, q: real| #[trigger]
        means(value(km.0), p) && #[trigger] means(value(thousand()), q) && n == p * q;
    lemma_means_value(km.0, k);
    lemma_means_value(thousand(), t);
    assert(x == k) by (nonlinear_arith)
        requires
            x * 1000real == k * 1000real,
    ;
}

} // verus!
