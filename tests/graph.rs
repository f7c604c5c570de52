use cagra::error::Error;
use cagra::graph::{Graph, NodeIndex};
use cagra::operator::{Binary, BinaryOperator, Unary, UnaryOperator};
use cagra::scalar::{Field, Scalar};
use cagra::tensor::{IntoTensor, Tensor, TensorCast};

/// Real scalars in double precision.
#[derive(Clone, Copy, Debug, PartialEq)]
struct R(f64);

/// Floating-point arithmetic meets the field laws only up to rounding; the
/// law items are the verifier's obligations and are empty here.
impl Field for R {
    fn spec_zero() -> R {
        R(0.0)
    }
    fn spec_one() -> R {
        R(1.0)
    }
    fn spec_add(self, rhs: R) -> R {
        R(self.0 + rhs.0)
    }
    fn spec_mul(self, rhs: R) -> R {
        R(self.0 * rhs.0)
    }
    fn spec_div(self, rhs: R) -> R {
        R(self.0 / rhs.0)
    }
    fn spec_neg(self) -> R {
        R(-self.0)
    }
    fn add_commutes(_a: R, _b: R) {}
    fn add_associates(_a: R, _b: R, _c: R) {}
    fn add_zero_is_identity(_a: R) {}
    fn add_neg_is_zero(_a: R) {}
    fn mul_commutes(_a: R, _b: R) {}
    fn mul_associates(_a: R, _b: R, _c: R) {}
    fn mul_one_is_identity(_a: R) {}
    fn mul_distributes(_a: R, _b: R, _c: R) {}
    fn zero() -> R {
        R(0.0)
    }
    fn one() -> R {
        R(1.0)
    }
    fn add(self, rhs: R) -> R {
        R(self.0 + rhs.0)
    }
    fn mul(self, rhs: R) -> R {
        R(self.0 * rhs.0)
    }
    fn div(self, rhs: R) -> R {
        R(self.0 / rhs.0)
    }
    fn neg(self) -> R {
        R(-self.0)
    }
}

impl Scalar for R {
    fn spec_conj(self) -> R {
        self
    }
    fn spec_exp(self) -> R {
        self.exp()
    }
    fn spec_ln(self) -> R {
        self.ln()
    }
    fn spec_sin(self) -> R {
        self.sin()
    }
    fn spec_cos(self) -> R {
        self.cos()
    }
    fn spec_tan(self) -> R {
        self.tan()
    }
    fn spec_sinh(self) -> R {
        self.sinh()
    }
    fn spec_cosh(self) -> R {
        self.cosh()
    }
    fn spec_tanh(self) -> R {
        self.tanh()
    }
    fn conj(self) -> R {
        self
    }
    fn exp(self) -> R {
        R(self.0.exp())
    }
    fn ln(self) -> R {
        R(self.0.ln())
    }
    fn sin(self) -> R {
        R(self.0.sin())
    }
    fn cos(self) -> R {
        R(self.0.cos())
    }
    fn tan(self) -> R {
        R(self.0.tan())
    }
    fn sinh(self) -> R {
        R(self.0.sinh())
    }
    fn cosh(self) -> R {
        R(self.0.cosh())
    }
    fn tanh(self) -> R {
        R(self.0.tanh())
    }
}

fn close(a: R, b: f64) -> bool {
    (a.0 - b).abs() < 1e-9
}

fn scalar_of(t: Tensor<R>) -> f64 {
    t.as_scalar().unwrap().0
}

fn vector_of(t: Tensor<R>) -> Vec<f64> {
    t.as_vector().unwrap().into_iter().map(|r| r.0).collect()
}

fn rs(v: &[f64]) -> Vec<R> {
    v.iter().map(|&x| R(x)).collect()
}

#[test]
fn test_graph_macro() {
    // z = x + y + 2 * x * y, built by the calls the graph macro emits
    let mut g: Graph<R> = Graph::new();
    let x = g.scalar("x", R(1.0)).unwrap();
    let y = g.scalar("y", R(3.0)).unwrap();
    let x_y = g.add(x, y);
    let two = g.constant_scalar(R(2.0));
    let two_x = g.mul(two, x);
    let two_x_y = g.mul(two_x, y);
    let z = g.add(x_y, two_x_y);
    g.set_name(z, "z");
    assert_eq!(g.get_index("z").unwrap(), z);
    assert_eq!(scalar_of(g.eval_value(z).unwrap()), 10.0);
}

#[test]
fn test_div() -> Result<(), Error> {
    let mut g = Graph::new();
    let x = g.scalar("x", R(1.0))?;
    let y = g.scalar("y", R(2.0))?;
    let z = g.div(x, y);
    assert!(close(g.eval_value(z)?.as_scalar()?, 0.5));
    g.eval_deriv(z)?;
    assert!(close(g.get_deriv(x)?.as_scalar()?, 0.5));
    assert!(close(g.get_deriv(y)?.as_scalar()?, -0.25));
    Ok(())
}

#[test]
fn test_dot() -> Result<(), Error> {
    let mut g = Graph::new();
    let x0: &[f64] = &[1.0, 2.0];
    let y0: &[f64] = &[3.0, 4.0];
    let x = g.vector("x", &rs(x0))?;
    let y = g.vector("y", &rs(y0))?;
    let z = g.dot(x, y);
    assert!(close(g.eval_value(z)?.as_scalar()?, 1.0 * 3.0 + 2.0 * 4.0));
    g.eval_deriv(z)?;
    assert_eq!(vector_of(g.get_deriv(x)?), y0);
    assert_eq!(vector_of(g.get_deriv(y)?), x0);
    Ok(())
}

#[test]
fn test_square() -> Result<(), Error> {
    let mut g = Graph::new();
    let x = g.scalar("x", R(3.0))?;
    let y = g.square(x);
    assert!(close(g.eval_value(y)?.as_scalar()?, 9.0));
    g.eval_deriv(y)?;
    assert!(close(g.get_deriv(x)?.as_scalar()?, 6.0));
    Ok(())
}

#[test]
fn test_pow2() -> Result<(), Error> {
    let mut g = Graph::new();
    let x = g.scalar("x", R(3.0))?;
    let y = g.square(x);
    assert!(close(g.eval_value(y)?.as_scalar()?, 9.0));
    g.eval_deriv(y)?;
    assert!(close(g.get_deriv(x)?.as_scalar()?, 6.0));
    Ok(())
}

/// Value and derivative of a unary operator at 1.234.
fn unary_at(op: fn(&mut Graph<R>, NodeIndex) -> NodeIndex) -> Result<(f64, f64), Error> {
    let mut g = Graph::new();
    let x = g.scalar("x", R(1.234))?;
    let y = op(&mut g, x);
    let v = g.eval_value(y)?.as_scalar()?.0;
    g.eval_deriv(y)?;
    let d = g.get_deriv(x)?.as_scalar()?.0;
    Ok((v, d))
}

#[test]
fn test_exp() -> Result<(), Error> {
    let x0: f64 = 1.234;
    let (v, d) = unary_at(|g, x| g.exp(x))?;
    assert!(close(R(v), x0.exp()));
    assert!(close(R(d), x0.exp()));
    Ok(())
}

#[test]
fn test_ln() -> Result<(), Error> {
    let x0: f64 = 1.234;
    let (v, d) = unary_at(|g, x| g.ln(x))?;
    assert!(close(R(v), x0.ln()));
    assert!(close(R(d), 1.0 / x0));
    Ok(())
}

#[test]
fn test_sin() -> Result<(), Error> {
    let x0: f64 = 1.234;
    let (v, d) = unary_at(|g, x| g.sin(x))?;
    assert!(close(R(v), x0.sin()));
    assert!(close(R(d), x0.cos()));
    Ok(())
}

#[test]
fn test_cos() -> Result<(), Error> {
    let x0: f64 = 1.234;
    let (v, d) = unary_at(|g, x| g.cos(x))?;
    assert!(close(R(v), x0.cos()));
    assert!(close(R(d), -x0.sin()));
    Ok(())
}

#[test]
fn test_sinh() -> Result<(), Error> {
    let x0: f64 = 1.234;
    let (v, d) = unary_at(|g, x| g.sinh(x))?;
    assert!(close(R(v), x0.sinh()));
    assert!(close(R(d), x0.cosh()));
    Ok(())
}

#[test]
fn test_cosh() -> Result<(), Error> {
    let x0: f64 = 1.234;
    let (v, d) = unary_at(|g, x| g.cosh(x))?;
    assert!(close(R(v), x0.cosh()));
    assert!(close(R(d), x0.sinh()));
    Ok(())
}

#[test]
fn test_sin_cos() -> Result<(), Error> {
    let mut g = Graph::new();
    let x = g.scalar("x", R(1.234))?;
    let s = g.sin(x);
    let ss = g.square(s);
    let c = g.cos(x);
    let cc = g.square(c);
    let z = g.add(ss, cc);
    assert!(close(g.eval_value(z)?.as_scalar()?, 1.0));
    g.eval_deriv(z)?;
    assert!(close(g.get_deriv(x)?.as_scalar()?, 0.0));
    Ok(())
}

#[test]
fn test_tan() -> Result<(), Error> {
    let mut g = Graph::new();
    let x = g.scalar("x", R(1.234))?;
    let t = g.tan(x);
    let s = g.sin(x);
    let c = g.cos(x);
    let tc = g.mul(t, c);
    let z = g.div(tc, s);
    assert!(close(g.eval_value(z)?.as_scalar()?, 1.0));
    g.eval_deriv(z)?;
    assert!(close(g.get_deriv(x)?.as_scalar()?, 0.0));
    Ok(())
}

#[test]
fn test_sinh_cosh() -> Result<(), Error> {
    let mut g = Graph::new();
    let x = g.scalar("x", R(1.234))?;
    let s = g.sinh(x);
    let ss = g.square(s);
    let c = g.cosh(x);
    let cc = g.square(c);
    let z = g.sub(cc, ss);
    assert!(close(g.eval_value(z)?.as_scalar()?, 1.0));
    g.eval_deriv(z)?;
    assert!((g.get_deriv(x)?.as_scalar()?.0).abs() < 1e-8);
    Ok(())
}

#[test]
fn test_tanh() -> Result<(), Error> {
    let mut g = Graph::new();
    let x = g.scalar("x", R(1.234))?;
    let t = g.tanh(x);
    let s = g.sinh(x);
    let c = g.cosh(x);
    let tc = g.mul(t, c);
    let z = g.div(tc, s);
    assert!(close(g.eval_value(z)?.as_scalar()?, 1.0));
    g.eval_deriv(z)?;
    assert!(close(g.get_deriv(x)?.as_scalar()?, 0.0));
    Ok(())
}

#[test]
fn constant_value_is_stable() {
    let mut g: Graph<R> = Graph::new();
    let c = g.constant_scalar(R(2.5));
    let x = g.scalar("x", R(1.0)).unwrap();
    let y = g.mul(c, x);
    for _ in 0..3 {
        assert_eq!(scalar_of(g.eval_value(c).unwrap()), 2.5);
    }
    g.eval_value(y).unwrap();
    g.set_value(x, R(4.0).into_tensor()).unwrap();
    assert_eq!(scalar_of(g.eval_value(c).unwrap()), 2.5);
    assert!(matches!(g.set_value(c, R(9.0).into_tensor()), Err(Error::NodeTypeError { index }) if index == c.index()));
    assert_eq!(scalar_of(g.get_value(c).unwrap()), 2.5);
}

#[test]
fn add_derivative_is_one() {
    let mut g: Graph<R> = Graph::new();
    let x = g.scalar("x", R(-7.5)).unwrap();
    let y = g.scalar("y", R(0.25)).unwrap();
    let z = g.add(x, y);
    assert_eq!(scalar_of(g.eval_value(z).unwrap()), -7.25);
    g.eval_deriv(z).unwrap();
    assert_eq!(scalar_of(g.get_deriv(x).unwrap()), 1.0);
    assert_eq!(scalar_of(g.get_deriv(y).unwrap()), 1.0);
}

#[test]
fn mul_derivative_is_other_operand() {
    let mut g: Graph<R> = Graph::new();
    let x = g.scalar("x", R(3.0)).unwrap();
    let y = g.scalar("y", R(-2.0)).unwrap();
    let z = g.mul(x, y);
    assert_eq!(scalar_of(g.eval_value(z).unwrap()), -6.0);
    g.eval_deriv(z).unwrap();
    assert_eq!(scalar_of(g.get_deriv(x).unwrap()), -2.0);
    assert_eq!(scalar_of(g.get_deriv(y).unwrap()), 3.0);
}

#[test]
fn div_derivatives() {
    let mut g: Graph<R> = Graph::new();
    let x = g.scalar("x", R(3.0)).unwrap();
    let y = g.scalar("y", R(2.0)).unwrap();
    let z = g.div(x, y);
    assert_eq!(scalar_of(g.eval_value(z).unwrap()), 1.5);
    g.eval_deriv(z).unwrap();
    assert_eq!(scalar_of(g.get_deriv(x).unwrap()), 0.5);
    assert_eq!(scalar_of(g.get_deriv(y).unwrap()), -0.75);
}

#[test]
fn sub_keeps_operand_order() {
    let mut g: Graph<R> = Graph::new();
    let x = g.scalar("x", R(5.0)).unwrap();
    let y = g.scalar("y", R(2.0)).unwrap();
    let before = g.node_count();
    let z = g.sub(x, y);
    assert_eq!(g.node_count(), before + 2);
    assert_eq!(scalar_of(g.eval_value(z).unwrap()), 3.0);
    g.eval_deriv(z).unwrap();
    assert_eq!(scalar_of(g.get_deriv(x).unwrap()), 1.0);
    assert_eq!(scalar_of(g.get_deriv(y).unwrap()), -1.0);
}

#[test]
fn dot_of_vectors() {
    let mut g: Graph<R> = Graph::new();
    let u = g.vector("u", &rs(&[1.0, 2.0])).unwrap();
    let v = g.vector("v", &rs(&[3.0, 4.0])).unwrap();
    let z = g.dot(u, v);
    assert_eq!(scalar_of(g.eval_value(z).unwrap()), 11.0);
    g.eval_deriv(z).unwrap();
    assert_eq!(vector_of(g.get_deriv(u).unwrap()), vec![3.0, 4.0]);
    assert_eq!(vector_of(g.get_deriv(v).unwrap()), vec![1.0, 2.0]);
}

#[test]
fn duplicated_name_is_refused() {
    let mut g: Graph<R> = Graph::new();
    let x = g.scalar("x", R(1.0)).unwrap();
    let count = g.node_count();
    match g.scalar("x", R(2.0)) {
        Err(Error::DuplicatedName { name }) => assert_eq!(name, "x"),
        other => panic!("unexpected {:?}", other),
    }
    assert!(matches!(g.empty_variable("x"), Err(Error::DuplicatedName { .. })));
    assert_eq!(g.node_count(), count);
    assert_eq!(g.get_index("x").unwrap(), x);
    assert_eq!(scalar_of(g.get_value(x).unwrap()), 1.0);
}

#[test]
fn undefined_name() {
    let g: Graph<R> = Graph::new();
    match g.get_index("nope") {
        Err(Error::UndefinedName { name }) => assert_eq!(name, "nope"),
        other => panic!("unexpected {:?}", other),
    }
}

#[test]
fn uninitialized_value_and_deriv() {
    let mut g: Graph<R> = Graph::new();
    let x = g.empty_variable("x").unwrap();
    let y = g.neg(x);
    assert!(matches!(g.get_value(x), Err(Error::ValueUninitialized { index }) if index == x.index()));
    assert!(matches!(g.eval_value(y), Err(Error::ValueUninitialized { index }) if index == x.index()));
    assert!(matches!(g.get_value(y), Err(Error::ValueUninitialized { .. })));
    assert!(matches!(g.get_deriv(x), Err(Error::DerivUninitialized { index }) if index == x.index()));
    g.set_value(x, R(2.0).into_tensor()).unwrap();
    assert_eq!(scalar_of(g.eval_value(y).unwrap()), -2.0);
    g.eval_deriv(y).unwrap();
    assert_eq!(scalar_of(g.get_deriv(x).unwrap()), -1.0);
}

#[test]
fn deriv_of_unreached_node_stays_unset() {
    let mut g: Graph<R> = Graph::new();
    let x = g.scalar("x", R(2.0)).unwrap();
    let w = g.scalar("w", R(5.0)).unwrap();
    let y = g.square(x);
    g.eval_value(y).unwrap();
    g.eval_deriv(y).unwrap();
    assert!(matches!(g.get_deriv(w), Err(Error::DerivUninitialized { .. })));
}

#[test]
fn set_value_on_operator_is_refused() {
    let mut g: Graph<R> = Graph::new();
    let x = g.scalar("x", R(1.0)).unwrap();
    let y = g.scalar("y", R(2.0)).unwrap();
    let z = g.add(x, y);
    assert_eq!(scalar_of(g.eval_value(z).unwrap()), 3.0);
    let r = g.set_value(z, R(100.0).into_tensor());
    assert!(matches!(r, Err(Error::NodeTypeError { index }) if index == z.index()));
    assert!(!g.is_variable(z));
    assert_eq!(scalar_of(g.get_value(z).unwrap()), 3.0);
}

#[test]
fn rank_mismatch_on_as_scalar() {
    let t: Tensor<R> = Tensor::vector(&rs(&[1.0, 2.0]));
    assert_eq!(t.rank(), 1);
    assert_eq!(
        t.as_scalar(),
        Err(Error::TensorRankMismatch { actual: 1, desired: 0 })
    );
    assert_eq!(TensorCast::as_scalar(&t), Err(Error::TensorRankMismatch { actual: 1, desired: 0 }));
    let s = R(4.0).into_tensor();
    assert_eq!(s.rank(), 0);
    assert_eq!(s.as_scalar(), Ok(R(4.0)));
    assert!(matches!(s.as_vector(), Err(Error::TensorRankMismatch { actual: 0, desired: 1 })));
}

#[test]
fn end_to_end_polynomial() {
    // z = (x + y) - 2 * x * y
    let mut g: Graph<R> = Graph::new();
    let x = g.scalar("x", R(1.0)).unwrap();
    let y = g.scalar("y", R(3.0)).unwrap();
    let x_y = g.add(x, y);
    let xy = g.mul(x, y);
    let a = g.constant_scalar(R(2.0));
    let axy = g.mul(a, xy);
    let z = g.sub(x_y, axy);
    assert_eq!(scalar_of(g.eval_value(z).unwrap()), -2.0);
    g.eval_deriv(z).unwrap();
    assert_eq!(scalar_of(g.get_deriv(x).unwrap()), -5.0);
    assert_eq!(scalar_of(g.get_deriv(y).unwrap()), -1.0);
}

#[test]
fn end_to_end_energy() {
    // h = x^2 + p^2
    let mut g: Graph<R> = Graph::new();
    let x = g.scalar("x", R(1.0)).unwrap();
    let p = g.scalar("p", R(1.0)).unwrap();
    let x_sq = g.square(x);
    let p_sq = g.square(p);
    let h = g.add(x_sq, p_sq);
    assert_eq!(scalar_of(g.eval_value(h).unwrap()), 2.0);
    g.eval_deriv(h).unwrap();
    assert_eq!(scalar_of(g.get_deriv(x).unwrap()), 2.0);
    assert_eq!(scalar_of(g.get_deriv(p).unwrap()), 2.0);
}

#[test]
fn shared_subexpression_accumulates() {
    // z = x * x reaches x along two edges
    let mut g: Graph<R> = Graph::new();
    let x = g.scalar("x", R(3.0)).unwrap();
    let z = g.mul(x, x);
    assert_eq!(scalar_of(g.eval_value(z).unwrap()), 9.0);
    g.eval_deriv(z).unwrap();
    assert_eq!(scalar_of(g.get_deriv(x).unwrap()), 6.0);
}

#[test]
fn evaluation_is_cached() {
    let mut g: Graph<R> = Graph::new();
    let x = g.scalar("x", R(2.0)).unwrap();
    let y = g.exp(x);
    let first = scalar_of(g.eval_value(y).unwrap());
    g.set_value(x, R(0.0).into_tensor()).unwrap();
    // the cached value of y is kept until it is recomputed
    assert_eq!(scalar_of(g.eval_value(y).unwrap()), first);
    assert_eq!(scalar_of(g.get_value(x).unwrap()), 0.0);
}

#[test]
fn shape_mismatch_is_reported() {
    let mut g: Graph<R> = Graph::new();
    let u = g.vector("u", &rs(&[1.0, 2.0])).unwrap();
    let v = g.vector("v", &rs(&[1.0, 2.0, 3.0])).unwrap();
    let z = g.add(u, v);
    assert_eq!(g.eval_value(z).unwrap_err(), Error::ShapeMismatch { lhs_len: 2, rhs_len: 3 });
}

#[test]
fn scalar_broadcasts_over_vector() {
    let mut g: Graph<R> = Graph::new();
    let a = g.constant_scalar(R(2.0));
    let v = g.vector("v", &rs(&[1.0, -3.0])).unwrap();
    let z = g.mul(a, v);
    assert_eq!(vector_of(g.eval_value(z).unwrap()), vec![2.0, -6.0]);
    g.eval_deriv(z).unwrap();
    assert_eq!(vector_of(g.get_deriv(v).unwrap()), vec![2.0, 2.0]);
}

#[test]
fn dot_with_vector_gradient_is_rank_mismatch() {
    // the dot node feeds an elementwise product with a vector, so its
    // incoming gradient is a vector
    let mut g: Graph<R> = Graph::new();
    let u = g.vector("u", &rs(&[1.0, 2.0])).unwrap();
    let d = g.dot(u, u);
    let z = g.mul(d, u);
    assert_eq!(vector_of(g.eval_value(z).unwrap()), vec![5.0, 10.0]);
    assert_eq!(g.eval_deriv(z), Err(Error::TensorRankMismatch { actual: 1, desired: 0 }));
}

#[test]
fn tensor_operations() {
    let t = Tensor::vector(&rs(&[1.0, 2.0, 3.0]));
    assert_eq!(t.shape(), vec![3]);
    assert_eq!(t.sum().as_scalar(), Ok(R(6.0)));
    assert_eq!(t.ones_like().elements(), rs(&[1.0, 1.0, 1.0]));
    let s: &[R] = &rs(&[5.0]);
    assert_eq!(s.into_tensor().shape(), vec![1]);
    let doubled = t.map(|x| x.add(x));
    assert_eq!(doubled.elements(), rs(&[2.0, 4.0, 6.0]));
}

#[test]
fn operator_rules() {
    let a = Tensor::vector(&rs(&[2.0, 4.0]));
    let b = Tensor::vector(&rs(&[8.0, 2.0]));
    let one = Tensor::vector(&rs(&[1.0, 1.0]));
    assert_eq!(Binary::Div.eval_value(&a, &b).unwrap().elements(), rs(&[0.25, 2.0]));
    let (dl, dr) = Binary::Div.eval_deriv(&a, &b, &one).unwrap();
    assert_eq!(dl.elements(), rs(&[0.125, 0.5]));
    assert_eq!(dr.elements(), rs(&[-2.0 / 64.0, -1.0]));
    assert_eq!(Unary::Neg.eval_value(&a).elements(), rs(&[-2.0, -4.0]));
    assert_eq!(Unary::Square.eval_deriv(&a, &one).unwrap().elements(), rs(&[4.0, 8.0]));
    assert_eq!(cagra::operator::neg(), Unary::Neg);
    assert_eq!(cagra::operator::add(), Binary::Add);
    assert_eq!(cagra::operator::mul(), Binary::Mul);
}

#[test]
fn set_name_rebinds() {
    let mut g: Graph<R> = Graph::new();
    let x = g.scalar("x", R(1.0)).unwrap();
    let y = g.neg(x);
    assert_eq!(g.set_name(y, "y"), None);
    assert_eq!(g.get_index("y").unwrap(), y);
    assert_eq!(g.set_name(x, "y"), Some(y));
    assert_eq!(g.get_index("y").unwrap(), x);
    assert_eq!(g.get_index("x").unwrap(), x);
}
