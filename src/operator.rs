//! Operators of the calculation graph: their value rules and their local
//! derivative (vector-Jacobian product) rules.

use crate::error::Error;
use crate::scalar::{Field, Scalar};
use crate::tensor::{joint_len, map_model, sum_from, zip_model, Tensor, TensorModel};
use vstd::prelude::*;

verus! {

/// Model of a fallible tensor result.
pub open spec fn result_model<A>(r: Result<Tensor<A>, Error>) -> Result<TensorModel<A>, Error> {
    match r {
        Ok(t) => Ok(t@),
        Err(e) => Err(e),
    }
}

/// Model of a fallible pair of tensors.
pub open spec fn pair_model<A>(r: Result<(Tensor<A>, Tensor<A>), Error>) -> Result<
    (TensorModel<A>, TensorModel<A>),
    Error,
> {
    match r {
        Ok((a, b)) => Ok((a@, b@)),
        Err(e) => Err(e),
    }
}

/// `1 + 1`
pub open spec fn two<A: Field>() -> A {
    A::spec_one().spec_add(A::spec_one())
}

pub open spec fn add_fn<A: Field>() -> spec_fn(A, A) -> A {
    |x: A, y: A| x.spec_add(y)
}

pub open spec fn mul_fn<A: Field>() -> spec_fn(A, A) -> A {
    |x: A, y: A| x.spec_mul(y)
}

pub open spec fn div_fn<A: Field>() -> spec_fn(A, A) -> A {
    |x: A, y: A| x.spec_div(y)
}

pub open spec fn neg_fn<A: Field>() -> spec_fn(A) -> A {
    |x: A| x.spec_neg()
}

/// Multiplication of every element by `s` on the right.
pub open spec fn scale_fn<A: Field>(s: A) -> spec_fn(A) -> A {
    |x: A| x.spec_mul(s)
}

/// Value rule of a unary operator on one element.
pub open spec fn apply_fn<A: Scalar>(op: Unary) -> spec_fn(A) -> A {
    |x: A| op.spec_apply(x)
}

/// Derivative rule of a unary operator on one element, taking the incoming
/// derivative first and the operand second.
pub open spec fn chain_fn<A: Scalar>(op: Unary) -> spec_fn(A, A) -> A {
    |d: A, a: A| op.spec_chain(a, d)
}

/// Elementwise sum.
pub fn zip_add<A: Field>(a: &Tensor<A>, b: &Tensor<A>) -> (r: Result<Tensor<A>, Error>)
    ensures
        result_model(r) == zip_model(a@, b@, add_fn::<A>()),
{
    let r = a.zip_with(b, |x: A, y: A| -> (z: A) ensures z == x.spec_add(y) { x.add(y) });
    proof {
        if let Ok(ref t) = r {
            assert(t@.elems =~= Seq::new(
                joint_len(a@, b@),
                |i: int| add_fn::<A>()(a@.at(i), b@.at(i)),
            ));
        }
    }
    r
}

/// Elementwise product.
pub fn zip_mul<A: Field>(a: &Tensor<A>, b: &Tensor<A>) -> (r: Result<Tensor<A>, Error>)
    ensures
        result_model(r) == zip_model(a@, b@, mul_fn::<A>()),
{
    let r = a.zip_with(b, |x: A, y: A| -> (z: A) ensures z == x.spec_mul(y) { x.mul(y) });
    proof {
        if let Ok(ref t) = r {
            assert(t@.elems =~= Seq::new(
                joint_len(a@, b@),
                |i: int| mul_fn::<A>()(a@.at(i), b@.at(i)),
            ));
        }
    }
    r
}

/// Elementwise quotient.
pub fn zip_div<A: Field>(a: &Tensor<A>, b: &Tensor<A>) -> (r: Result<Tensor<A>, Error>)
    ensures
        result_model(r) == zip_model(a@, b@, div_fn::<A>()),
{
    let r = a.zip_with(b, |x: A, y: A| -> (z: A) ensures z == x.spec_div(y) { x.div(y) });
    proof {
        if let Ok(ref t) = r {
            assert(t@.elems =~= Seq::new(
                joint_len(a@, b@),
                |i: int| div_fn::<A>()(a@.at(i), b@.at(i)),
            ));
        }
    }
    r
}

/// Elementwise negation.
pub fn map_neg<A: Field>(a: &Tensor<A>) -> (r: Tensor<A>)
    ensures
        r@ == map_model(a@, neg_fn::<A>()),
{
    let r = a.map(|x: A| -> (z: A) ensures z == x.spec_neg() { x.neg() });
    assert(r@.elems =~= map_model(a@, neg_fn::<A>()).elems);
    r
}

/// Every element multiplied by `s`.
pub fn map_scale<A: Field>(a: &Tensor<A>, s: A) -> (r: Tensor<A>)
    ensures
        r@ == map_model(a@, scale_fn::<A>(s)),
{
    let r = a.map(|x: A| -> (z: A) ensures z == x.spec_mul(s) { x.mul(s) });
    assert(r@.elems =~= map_model(a@, scale_fn::<A>(s)).elems);
    r
}

/// Unary operators.
#[derive(Clone, Copy, Debug, PartialEq, Eq)]
pub enum Unary {
    Neg,
    Square,
    Exp,
    Ln,
    Sin,
    Cos,
    Tan,
    Sinh,
    Cosh,
    Tanh,
}

/// Binary operators; the first operand is the left-hand side.
#[derive(Clone, Copy, Debug, PartialEq, Eq)]
pub enum Binary {
    Add,
    Mul,
    Div,
    /// Sum of the elementwise product, a rank-0 tensor.
    Dot,
}

impl Unary {
    /// Value rule on one element.
    pub open spec fn spec_apply<A: Scalar>(self, a: A) -> A {
        match self {
            Unary::Neg => a.spec_neg(),
            Unary::Square => a.spec_conj().spec_mul(a),
            Unary::Exp => a.spec_exp(),
            Unary::Ln => a.spec_ln(),
            Unary::Sin => a.spec_sin(),
            Unary::Cos => a.spec_cos(),
            Unary::Tan => a.spec_tan(),
            Unary::Sinh => a.spec_sinh(),
            Unary::Cosh => a.spec_cosh(),
            Unary::Tanh => a.spec_tanh(),
        }
    }

    /// Local derivative rule on one element: the incoming derivative `d`
    /// times the derivative of the operator at `a`.
    pub open spec fn spec_chain<A: Scalar>(self, a: A, d: A) -> A {
        match self {
            Unary::Neg => d.spec_neg(),
            Unary::Square => d.spec_mul(two::<A>().spec_mul(a.spec_conj())),
            Unary::Exp => d.spec_mul(a.spec_exp()),
            Unary::Ln => d.spec_div(a),
            Unary::Sin => d.spec_mul(a.spec_cos()),
            Unary::Cos => d.spec_mul(a.spec_sin().spec_neg()),
            Unary::Tan => d.spec_div(a.spec_cos().spec_mul(a.spec_cos())),
            Unary::Sinh => d.spec_mul(a.spec_cosh()),
            Unary::Cosh => d.spec_mul(a.spec_sinh()),
            Unary::Tanh => d.spec_div(a.spec_cosh().spec_mul(a.spec_cosh())),
        }
    }

    pub fn apply<A: Scalar>(self, a: A) -> (r: A)
        ensures
            r == self.spec_apply(a),
    {
        match self {
            Unary::Neg => a.neg(),
            Unary::Square => a.conj().mul(a),
            Unary::Exp => a.exp(),
            Unary::Ln => a.ln(),
            Unary::Sin => a.sin(),
            Unary::Cos => a.cos(),
            Unary::Tan => a.tan(),
            Unary::Sinh => a.sinh(),
            Unary::Cosh => a.cosh(),
            Unary::Tanh => a.tanh(),
        }
    }

    pub fn chain<A: Scalar>(self, a: A, d: A) -> (r: A)
        ensures
            r == self.spec_chain(a, d),
    {
        match self {
            Unary::Neg => d.neg(),
            Unary::Square => {
                let two = A::one().add(A::one());
                d.mul(two.mul(a.conj()))
            },
            Unary::Exp => d.mul(a.exp()),
            Unary::Ln => d.div(a),
            Unary::Sin => d.mul(a.cos()),
            Unary::Cos => d.mul(a.sin().neg()),
            Unary::Tan => {
                let c = a.cos();
                d.div(c.mul(c))
            },
            Unary::Sinh => d.mul(a.cosh()),
            Unary::Cosh => d.mul(a.sinh()),
            Unary::Tanh => {
                let c = a.cosh();
                d.div(c.mul(c))
            },
        }
    }
}

/// The value and derivative rules of a unary operator on tensors.
pub trait UnaryOperator<A: Scalar> {
    spec fn spec_value(&self, arg: TensorModel<A>) -> TensorModel<A>;

    spec fn spec_deriv(&self, arg: TensorModel<A>, deriv: TensorModel<A>) -> Result<
        TensorModel<A>,
        Error,
    >;

    /// Evaluate the result value of the operator.
    fn eval_value(&self, arg: &Tensor<A>) -> (r: Tensor<A>)
        ensures
            r@ == self.spec_value(arg@),
    ;

    /// Evaluate the derivative of the operator multiplied by the received
    /// derivative from upper of the graph.
    fn eval_deriv(&self, arg: &Tensor<A>, deriv: &Tensor<A>) -> (r: Result<Tensor<A>, Error>)
        ensures
            result_model(r) == self.spec_deriv(arg@, deriv@),
    ;
}

/// The value and derivative rules of a binary operator on tensors.
pub trait BinaryOperator<A: Scalar> {
    spec fn spec_value(&self, lhs: TensorModel<A>, rhs: TensorModel<A>) -> Result<
        TensorModel<A>,
        Error,
    >;

    spec fn spec_deriv(
        &self,
        lhs: TensorModel<A>,
        rhs: TensorModel<A>,
        deriv: TensorModel<A>,
    ) -> Result<(TensorModel<A>, TensorModel<A>), Error>;

    /// Evaluate the result value of the operator.
    fn eval_value(&self, lhs: &Tensor<A>, rhs: &Tensor<A>) -> (r: Result<Tensor<A>, Error>)
        ensures
            result_model(r) == self.spec_value(lhs@, rhs@),
    ;

    /// Evaluate the derivatives with respect to both operands, each
    /// multiplied by the received derivative from upper of the graph.
    fn eval_deriv(&self, lhs: &Tensor<A>, rhs: &Tensor<A>, deriv: &Tensor<A>) -> (r: Result<
        (Tensor<A>, Tensor<A>),
        Error,
    >)
        ensures
            pair_model(r) == self.spec_deriv(lhs@, rhs@, deriv@),
    ;
}

impl<A: Scalar> UnaryOperator<A> for Unary {
    open spec fn spec_value(&self, arg: TensorModel<A>) -> TensorModel<A> {
        map_model(arg, apply_fn::<A>(*self))
    }

    open spec fn spec_deriv(&self, arg: TensorModel<A>, deriv: TensorModel<A>) -> Result<
        TensorModel<A>,
        Error,
    > {
        zip_model(deriv, arg, chain_fn::<A>(*self))
    }

    fn eval_value(&self, arg: &Tensor<A>) -> (r: Tensor<A>) {
        let op = *self;
        let r = arg.map(|x: A| -> (z: A) ensures z == op.spec_apply(x) { op.apply(x) });
        assert(r@.elems =~= self.spec_value(arg@).elems);
        r
    }

    fn eval_deriv(&self, arg: &Tensor<A>, deriv: &Tensor<A>) -> (r: Result<Tensor<A>, Error>) {
        let op = *self;
        let r = deriv.zip_with(
            arg,
            |d: A, a: A| -> (z: A) ensures z == op.spec_chain(a, d) { op.chain(a, d) },
        );
        proof {
            if let Ok(ref t) = r {
                assert(t@.elems =~= Seq::new(
                    joint_len(deriv@, arg@),
                    |i: int| chain_fn::<A>(op)(deriv@.at(i), arg@.at(i)),
                ));
            }
        }
        r
    }
}

impl Binary {
    /// Value rule of `Dot` once the elementwise product is known.
    pub open spec fn dot_model<A: Field>(lhs: TensorModel<A>, rhs: TensorModel<A>) -> Result<
        TensorModel<A>,
        Error,
    > {
        match zip_model(lhs, rhs, mul_fn::<A>()) {
            Ok(p) => Ok(TensorModel::scalar(sum_from(p.elems, 0))),
            Err(e) => Err(e),
        }
    }

    /// Derivative of `Div` with respect to its right-hand side:
    /// `((-lhs) * deriv) / (rhs * rhs)`.
    pub open spec fn div_rhs_model<A: Field>(
        lhs: TensorModel<A>,
        rhs: TensorModel<A>,
        deriv: TensorModel<A>,
    ) -> Result<TensorModel<A>, Error> {
        match zip_model(map_model(lhs, neg_fn::<A>()), deriv, mul_fn::<A>()) {
            Ok(num) => match zip_model(rhs, rhs, mul_fn::<A>()) {
                Ok(den) => zip_model(num, den, div_fn::<A>()),
                Err(e) => Err(e),
            },
            Err(e) => Err(e),
        }
    }
}

/// Both results, or the first error.
pub open spec fn both<A>(
    a: Result<TensorModel<A>, Error>,
    b: Result<TensorModel<A>, Error>,
) -> Result<(TensorModel<A>, TensorModel<A>), Error> {
    match a {
        Ok(x) => match b {
            Ok(y) => Ok((x, y)),
            Err(e) => Err(e),
        },
        Err(e) => Err(e),
    }
}

impl<A: Scalar> BinaryOperator<A> for Binary {
    open spec fn spec_value(&self, lhs: TensorModel<A>, rhs: TensorModel<A>) -> Result<
        TensorModel<A>,
        Error,
    > {
        match self {
            Binary::Add => zip_model(lhs, rhs, add_fn::<A>()),
            Binary::Mul => zip_model(lhs, rhs, mul_fn::<A>()),
            Binary::Div => zip_model(lhs, rhs, div_fn::<A>()),
            Binary::Dot => Binary::dot_model(lhs, rhs),
        }
    }

    open spec fn spec_deriv(
        &self,
        lhs: TensorModel<A>,
        rhs: TensorModel<A>,
        deriv: TensorModel<A>,
    ) -> Result<(TensorModel<A>, TensorModel<A>), Error> {
        match self {
            Binary::Add => Ok((deriv, deriv)),
            Binary::Mul => both(
                zip_model(rhs, deriv, mul_fn::<A>()),
                zip_model(lhs, deriv, mul_fn::<A>()),
            ),
            Binary::Div => both(
                zip_model(deriv, rhs, div_fn::<A>()),
                Binary::div_rhs_model(lhs, rhs, deriv),
            ),
            Binary::Dot => if deriv.rank() == 0 {
                let s = deriv.elems[0];
                Ok((map_model(rhs, scale_fn::<A>(s)), map_model(lhs, scale_fn::<A>(s))))
            } else {
                Err(Error::TensorRankMismatch { actual: deriv.rank() as usize, desired: 0 })
            },
        }
    }

    fn eval_value(&self, lhs: &Tensor<A>, rhs: &Tensor<A>) -> (r: Result<Tensor<A>, Error>) {
        match self {
            Binary::Add => zip_add(lhs, rhs),
            Binary::Mul => zip_mul(lhs, rhs),
            Binary::Div => zip_div(lhs, rhs),
            Binary::Dot => match zip_mul(lhs, rhs) {
                Ok(p) => Ok(p.sum()),
                Err(e) => Err(e),
            },
        }
    }

    fn eval_deriv(&self, lhs: &Tensor<A>, rhs: &Tensor<A>, deriv: &Tensor<A>) -> (r: Result<
        (Tensor<A>, Tensor<A>),
        Error,
    >) {
        match self {
            Binary::Add => Ok((deriv.clone(), deriv.clone())),
            Binary::Mul => {
                let l = zip_mul(rhs, deriv)?;
                let r = zip_mul(lhs, deriv)?;
                Ok((l, r))
            },
            Binary::Div => {
                let l = zip_div(deriv, rhs)?;
                let neg_lhs = map_neg(lhs);
                let num = zip_mul(&neg_lhs, deriv)?;
                let den = zip_mul(rhs, rhs)?;
                let r = zip_div(&num, &den)?;
                Ok((l, r))
            },
            Binary::Dot => {
                let s = deriv.as_scalar()?;
                Ok((map_scale(rhs, s), map_scale(lhs, s)))
            },
        }
    }
}

/// The negation operator.
pub fn neg() -> (r: Unary)
    ensures
        r == Unary::Neg,
{
    Unary::Neg
}

/// The addition operator.
pub fn add() -> (r: Binary)
    ensures
        r == Binary::Add,
{
    Binary::Add
}

/// The multiplication operator.
pub fn mul() -> (r: Binary)
    ensures
        r == Binary::Mul,
{
    Binary::Mul
}

} // verus!
