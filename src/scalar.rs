//! The scalar field that tensors are made of.
//!
//! The engine never looks inside a scalar: it only combines scalars through
//! the operations below. Each operation is described by a spec function, and
//! the field laws are stated as proof obligations of the implementing type.
//! Floating-point and complex types implement these traits outside the
//! verified code; the laws then hold up to rounding.

use vstd::prelude::*;

verus! {

/// A commutative field: addition, multiplication, negation and division,
/// with identities for addition and multiplication.
pub trait Field: Sized + Copy {
    spec fn spec_zero() -> Self;

    spec fn spec_one() -> Self;

    spec fn spec_add(self, rhs: Self) -> Self;

    spec fn spec_mul(self, rhs: Self) -> Self;

    spec fn spec_div(self, rhs: Self) -> Self;

    spec fn spec_neg(self) -> Self;

    fn zero() -> (r: Self)
        ensures
            r == Self::spec_zero(),
    ;

    fn one() -> (r: Self)
        ensures
            r == Self::spec_one(),
    ;

    fn add(self, rhs: Self) -> (r: Self)
        ensures
            r == self.spec_add(rhs),
    ;

    fn mul(self, rhs: Self) -> (r: Self)
        ensures
            r == self.spec_mul(rhs),
    ;

    fn div(self, rhs: Self) -> (r: Self)
        ensures
            r == self.spec_div(rhs),
    ;

    fn neg(self) -> (r: Self)
        ensures
            r == self.spec_neg(),
    ;

    /// `a + b == b + a`
    proof fn add_commutes(a: Self, b: Self)
        ensures
            a.spec_add(b) == b.spec_add(a),
    ;

    /// `(a + b) + c == a + (b + c)`
    proof fn add_associates(a: Self, b: Self, c: Self)
        ensures
            a.spec_add(b).spec_add(c) == a.spec_add(b.spec_add(c)),
    ;

    /// `a + 0 == a`
    proof fn add_zero_is_identity(a: Self)
        ensures
            a.spec_add(Self::spec_zero()) == a,
    ;

    /// `a + (-a) == 0`
    proof fn add_neg_is_zero(a: Self)
        ensures
            a.spec_add(a.spec_neg()) == Self::spec_zero(),
    ;

    /// `a * b == b * a`
    proof fn mul_commutes(a: Self, b: Self)
        ensures
            a.spec_mul(b) == b.spec_mul(a),
    ;

    /// `(a * b) * c == a * (b * c)`
    proof fn mul_associates(a: Self, b: Self, c: Self)
        ensures
            a.spec_mul(b).spec_mul(c) == a.spec_mul(b.spec_mul(c)),
    ;

    /// `a * 1 == a`
    proof fn mul_one_is_identity(a: Self)
        ensures
            a.spec_mul(Self::spec_one()) == a,
    ;

    /// `a * (b + c) == a * b + a * c`
    proof fn mul_distributes(a: Self, b: Self, c: Self)
        ensures
            a.spec_mul(b.spec_add(c)) == a.spec_mul(b).spec_add(a.spec_mul(c)),
    ;
}

/// A field with the elementary functions that the unary operators need.
pub trait Scalar: Field {
    spec fn spec_conj(self) -> Self;

    spec fn spec_exp(self) -> Self;

    spec fn spec_ln(self) -> Self;

    spec fn spec_sin(self) -> Self;

    spec fn spec_cos(self) -> Self;

    spec fn spec_tan(self) -> Self;

    spec fn spec_sinh(self) -> Self;

    spec fn spec_cosh(self) -> Self;

    spec fn spec_tanh(self) -> Self;

    /// Complex conjugate; the identity on a real field.
    fn conj(self) -> (r: Self)
        ensures
            r == self.spec_conj(),
    ;

    fn exp(self) -> (r: Self)
        ensures
            r == self.spec_exp(),
    ;

    fn ln(self) -> (r: Self)
        ensures
            r == self.spec_ln(),
    ;

    fn sin(self) -> (r: Self)
        ensures
            r == self.spec_sin(),
    ;

    fn cos(self) -> (r: Self)
        ensures
            r == self.spec_cos(),
    ;

    fn tan(self) -> (r: Self)
        ensures
            r == self.spec_tan(),
    ;

    fn sinh(self) -> (r: Self)
        ensures
            r == self.spec_sinh(),
    ;

    fn cosh(self) -> (r: Self)
        ensures
            r == self.spec_cosh(),
    ;

    fn tanh(self) -> (r: Self)
        ensures
            r == self.spec_tanh(),
    ;
}

/// `0 + a == a`
pub proof fn lemma_zero_add<A: Field>(a: A)
    ensures
        A::spec_zero().spec_add(a) == a,
{
    A::add_commutes(A::spec_zero(), a);
    A::add_zero_is_identity(a);
}

/// `1 * a == a`
pub proof fn lemma_one_mul<A: Field>(a: A)
    ensures
        A::spec_one().spec_mul(a) == a,
{
    A::mul_commutes(A::spec_one(), a);
    A::mul_one_is_identity(a);
}

/// Cancellation: `a + b == a + c` implies `b == c`.
pub proof fn lemma_add_cancel<A: Field>(a: A, b: A, c: A)
    requires
        a.spec_add(b) == a.spec_add(c),
    ensures
        b == c,
{
    let na = a.spec_neg();
    A::add_associates(na, a, b);
    A::add_associates(na, a, c);
    A::add_commutes(na, a);
    A::add_neg_is_zero(a);
    lemma_zero_add(b);
    lemma_zero_add(c);
}

/// `a * 0 == 0`
pub proof fn lemma_mul_zero<A: Field>(a: A)
    ensures
        a.spec_mul(A::spec_zero()) == A::spec_zero(),
{
    let z = A::spec_zero();
    let az = a.spec_mul(z);
    A::add_zero_is_identity(z);
    A::mul_distributes(a, z, z);
    // az + az == az == az + 0
    A::add_zero_is_identity(az);
    lemma_add_cancel(az, az, z);
}

/// `a * (-b) == -(a * b)`
pub proof fn lemma_mul_neg<A: Field>(a: A, b: A)
    ensures
        a.spec_mul(b.spec_neg()) == a.spec_mul(b).spec_neg(),
{
    let ab = a.spec_mul(b);
    let anb = a.spec_mul(b.spec_neg());
    A::mul_distributes(a, b, b.spec_neg());
    A::add_neg_is_zero(b);
    lemma_mul_zero(a);
    A::add_neg_is_zero(ab);
    // ab + anb == 0 == ab + (-ab)
    lemma_add_cancel(ab, anb, ab.spec_neg());
}

} // verus!
