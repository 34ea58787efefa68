//! The elementary functions that a host supplies.
//!
//! Powers, exponentials, logarithms and angles are not fixed to the last bit by
//! IEEE 754: platforms differ. The library therefore takes them from its caller,
//! through [`Numerics`], and promises nothing of their values. Every contract
//! that speaks of such a value does so under [`repeatable`]: a host that answers
//! the same question twice the same way.
use crate::float::F64;
use vstd::prelude::*;

verus! {

/// Elementary functions and decimal text of the host platform.
pub trait Numerics: Sized {
    /// `x` to the power `y`.
    fn powf(&self, x: F64, y: F64) -> (r: F64);

    /// `x` to the integer power `n`.
    fn powi(&self, x: F64, n: i32) -> (r: F64);

    /// e to the power `x`.
    fn exp(&self, x: F64) -> (r: F64);

    /// Natural logarithm.
    fn ln(&self, x: F64) -> (r: F64);

    /// Arc tangent in radians.
    fn atan(&self, x: F64) -> (r: F64);

    /// Cosine of an angle in radians.
    fn cos(&self, x: F64) -> (r: F64);

    /// Decimal text with this many digits after the point.
    fn fixed(&self, x: F64, places: u32) -> (r: String);

    /// The shortest decimal text that reads back as `x`.
    fn shortest(&self, x: F64) -> (r: String);
}

/// The host is a function: one question has one answer.
#[verifier::opaque]
pub open spec fn repeatable<M: Numerics>(math: &M) -> bool {
    &&& forall|x: F64, y: F64, r1: F64, r2: F64|
        #![trigger call_ensures(M::powf, (math, x, y), r1), call_ensures(M::powf, (math, x, y), r2)]
        call_ensures(M::powf, (math, x, y), r1) && call_ensures(M::powf, (math, x, y), r2) ==> r1 == r2
    &&& forall|x: F64, n: i32, r1: F64, r2: F64|
        #![trigger call_ensures(M::powi, (math, x, n), r1), call_ensures(M::powi, (math, x, n), r2)]
        call_ensures(M::powi, (math, x, n), r1) && call_ensures(M::powi, (math, x, n), r2) ==> r1 == r2
    &&& forall|x: F64, r1: F64, r2: F64|
        #![trigger call_ensures(M::exp, (math, x), r1), call_ensures(M::exp, (math, x), r2)]
        call_ensures(M::exp, (math, x), r1) && call_ensures(M::exp, (math, x), r2) ==> r1 == r2
    &&& forall|x: F64, r1: F64, r2: F64|
        #![trigger call_ensures(M::ln, (math, x), r1), call_ensures(M::ln, (math, x), r2)]
        call_ensures(M::ln, (math, x), r1) && call_ensures(M::ln, (math, x), r2) ==> r1 == r2
    &&& forall|x: F64, r1: F64, r2: F64|
        #![trigger call_ensures(M::atan, (math, x), r1), call_ensures(M::atan, (math, x), r2)]
        call_ensures(M::atan, (math, x), r1) && call_ensures(M::atan, (math, x), r2) ==> r1 == r2
    &&& forall|x: F64, r1: F64, r2: F64|
        #![trigger call_ensures(M::cos, (math, x), r1), call_ensures(M::cos, (math, x), r2)]
        call_ensures(M::cos, (math, x), r1) && call_ensures(M::cos, (math, x), r2) ==> r1 == r2
    &&& forall|x: F64, n: u32, r1: String, r2: String|
        #![trigger call_ensures(M::fixed, (math, x, n), r1), call_ensures(M::fixed, (math, x, n), r2)]
        call_ensures(M::fixed, (math, x, n), r1) && call_ensures(M::fixed, (math, x, n), r2) ==> r1@ == r2@
    &&& forall|x: F64, r1: String, r2: String|
        #![trigger call_ensures(M::shortest, (math, x), r1), call_ensures(M::shortest, (math, x), r2)]
        call_ensures(M::shortest, (math, x), r1) && call_ensures(M::shortest, (math, x), r2) ==> r1@ == r2@
}

/// The host's answer for `x` to the power `y`.
#[verifier::opaque]
pub open spec fn powf_spec<M: Numerics>(math: &M, x: F64, y: F64) -> F64 {
    choose|r: F64| call_ensures(M::powf, (math, x, y), r)
}

/// The host's answer for `x` to the integer power `n`.
#[verifier::opaque]
pub open spec fn powi_spec<M: Numerics>(math: &M, x: F64, n: i32) -> F64 {
    choose|r: F64| call_ensures(M::powi, (math, x, n), r)
}

/// The host's answer for e to the power `x`.
#[verifier::opaque]
pub open spec fn exp_spec<M: Numerics>(math: &M, x: F64) -> F64 {
    choose|r: F64| call_ensures(M::exp, (math, x), r)
}

/// The host's answer for the natural logarithm of `x`.
#[verifier::opaque]
pub open spec fn ln_spec<M: Numerics>(math: &M, x: F64) -> F64 {
    choose|r: F64| call_ensures(M::ln, (math, x), r)
}

/// The host's answer for the arc tangent of `x`.
#[verifier::opaque]
pub open spec fn atan_spec<M: Numerics>(math: &M, x: F64) -> F64 {
    choose|r: F64| call_ensures(M::atan, (math, x), r)
}

/// The host's answer for the cosine of `x`.
#[verifier::opaque]
pub open spec fn cos_spec<M: Numerics>(math: &M, x: F64) -> F64 {
    choose|r: F64| call_ensures(M::cos, (math, x), r)
}

/// The host's decimal text of `x` with `places` digits after the point.
#[verifier::opaque]
pub open spec fn fixed_text<M: Numerics>(math: &M, x: F64, places: u32) -> Seq<char> {
    (choose|r: String| call_ensures(M::fixed, (math, x, places), r))@
}

/// The host's shortest decimal text of `x`.
#[verifier::opaque]
pub open spec fn shortest_text<M: Numerics>(math: &M, x: F64) -> Seq<char> {
    (choose|r: String| call_ensures(M::shortest, (math, x), r))@
}

#[verifier::when_used_as_spec(powf_spec)]
pub fn powf<M: Numerics>(math: &M, x: F64, y: F64) -> (r: F64)
    ensures
        repeatable(math) ==> r == powf(math, x, y),
{
    reveal(repeatable);
    reveal(powf_spec);
    math.powf(x, y)
}

#[verifier::when_used_as_spec(powi_spec)]
pub fn powi<M: Numerics>(math: &M, x: F64, n: i32) -> (r: F64)
    ensures
        repeatable(math) ==> r == powi(math, x, n),
{
    reveal(repeatable);
    reveal(powi_spec);
    math.powi(x, n)
}

#[verifier::when_used_as_spec(exp_spec)]
pub fn exp<M: Numerics>(math: &M, x: F64) -> (r: F64)
    ensures
        repeatable(math) ==> r == exp(math, x),
{
    reveal(repeatable);
    reveal(exp_spec);
    math.exp(x)
}

#[verifier::when_used_as_spec(ln_spec)]
pub fn ln<M: Numerics>(math: &M, x: F64) -> (r: F64)
    ensures
        repeatable(math) ==> r == ln(math, x),
{
    reveal(repeatable);
    reveal(ln_spec);
    math.ln(x)
}

#[verifier::when_used_as_spec(atan_spec)]
pub fn atan<M: Numerics>(math: &M, x: F64) -> (r: F64)
    ensures
        repeatable(math) ==> r == atan(math, x),
{
    reveal(repeatable);
    reveal(atan_spec);
    math.atan(x)
}

#[verifier::when_used_as_spec(cos_spec)]
pub fn cos<M: Numerics>(math: &M, x: F64) -> (r: F64)
    ensures
        repeatable(math) ==> r == cos(math, x),
{
    reveal(repeatable);
    reveal(cos_spec);
    math.cos(x)
}

pub fn fixed<M: Numerics>(math: &M, x: F64, places: u32) -> (r: String)
    ensures
        repeatable(math) ==> r@ == fixed_text(math, x, places),
{
    reveal(repeatable);
    reveal(fixed_text);
    math.fixed(x, places)
}

pub fn shortest<M: Numerics>(math: &M, x: F64) -> (r: String)
    ensures
        repeatable(math) ==> r@ == shortest_text(math, x),
{
    reveal(repeatable);
    reveal(shortest_text);
    math.shortest(x)
}

} // verus!
