//! Derivative rules of the engine, proved for the elementary graph shapes.
//!
//! Each statement starts from any well-formed graph, adds the nodes of a small
//! expression the way the node constructors do, evaluates the expression
//! node and differentiates it, all through the spec functions that the
//! executable operations are proved to follow.

use crate::graph::{
    lemma_incoming_none, lemma_incoming_push, GraphModel, Property, MAX_NODES,
};
use crate::operator::{add_fn, div_fn, mul_fn, neg_fn, two, Binary, BinaryOperator, Unary, UnaryOperator};
use crate::scalar::Scalar;
use crate::tensor::{map_model, ones_model, zip_model, TensorModel};
use vstd::prelude::*;

verus! {

/// Every edge ends at an existing node.
pub open spec fn targets_bounded<A>(m: GraphModel<A>) -> bool {
    forall|e: int| 0 <= e < m.edges.len() ==> (#[trigger] m.edges[e]).1 < m.kinds.len()
}

proof fn lemma_push_unary<A: Scalar>(m: GraphModel<A>, op: Unary, arg: usize)
    requires
        targets_bounded(m),
        m.kinds.len() < MAX_NODES,
    ensures
        ({
            let g = m.push_unary(op, arg);
            &&& targets_bounded(g)
            &&& g.args(m.kinds.len() as int) == seq![arg]
            &&& forall|n: int| n != m.kinds.len() ==> #[trigger] g.args(n) == m.args(n)
        }),
{
    let z = m.kinds.len() as usize;
    let g = m.push_unary(op, arg);
    lemma_incoming_none(m.edges, z as int);
    lemma_incoming_push(m.edges, (arg, z), z as int);
    assert forall|n: int| n != m.kinds.len() implies #[trigger] g.args(n) == m.args(n) by {
        lemma_incoming_push(m.edges, (arg, z), n);
    }
    assert forall|e: int| 0 <= e < g.edges.len() implies (#[trigger] g.edges[e]).1 < g.kinds.len() by {
        if e < m.edges.len() {
            assert(g.edges[e] == m.edges[e]);
        }
    }
}

proof fn lemma_push_binary<A: Scalar>(m: GraphModel<A>, op: Binary, lhs: usize, rhs: usize)
    requires
        targets_bounded(m),
        m.kinds.len() < MAX_NODES,
    ensures
        ({
            let g = m.push_binary(op, lhs, rhs);
            &&& targets_bounded(g)
            &&& g.args(m.kinds.len() as int) == seq![rhs, lhs]
            &&& forall|n: int| n != m.kinds.len() ==> #[trigger] g.args(n) == m.args(n)
        }),
{
    let z = m.kinds.len() as usize;
    let g1 = m.push_node(Property::Binary(op), None).push_edge(lhs, z);
    let g = m.push_binary(op, lhs, rhs);
    lemma_incoming_none(m.edges, z as int);
    lemma_incoming_push(m.edges, (lhs, z), z as int);
    lemma_incoming_push(g1.edges, (rhs, z), z as int);
    assert(seq![rhs].add(seq![lhs]) =~= seq![rhs, lhs]);
    assert forall|n: int| n != m.kinds.len() implies #[trigger] g.args(n) == m.args(n) by {
        lemma_incoming_push(m.edges, (lhs, z), n);
        lemma_incoming_push(g1.edges, (rhs, z), n);
    }
    assert forall|e: int| 0 <= e < g.edges.len() implies (#[trigger] g.edges[e]).1 < g.kinds.len() by {
        if e < m.edges.len() {
            assert(g.edges[e] == m.edges[e]);
        } else if e == m.edges.len() {
            assert(g.edges[e] == (lhs, z));
        }
    }
}

/// A variable or constant takes the incoming gradient as it is, and the
/// pass stops there.
proof fn lemma_leaf_backprop<A: Scalar>(
    m: GraphModel<A>,
    derivs: Seq<Option<TensorModel<A>>>,
    n: nat,
    der: TensorModel<A>,
)
    requires
        n < m.kinds.len(),
        m.kinds[n as int] is Variable || m.kinds[n as int] is Constant,
        derivs[n as int] is None,
    ensures
        m.backprop(derivs, n, der) == (derivs.update(n as int, Some(der)), Ok::<(), crate::error::Error>(())),
{
}

/// Gradient of `x + y` with respect to each of two distinct variables of
/// the same shape: a tensor of ones.
pub proof fn law_add_derivative<A: Scalar>(m: GraphModel<A>, x: usize, y: usize)
    requires
        m.well_formed(),
        m.kinds.len() < MAX_NODES,
        x < m.kinds.len(),
        y < m.kinds.len(),
        x != y,
        m.kinds[x as int] is Variable,
        m.kinds[y as int] is Variable,
        m.values[x as int] is Some,
        m.values[y as int] is Some,
        m.values[x as int].unwrap().valid(),
        m.values[y as int].unwrap().valid(),
        m.values[x as int].unwrap().shape == m.values[y as int].unwrap().shape,
    ensures
        ({
            let z = m.kinds.len();
            let (g, r) = m.push_binary(Binary::Add, x, y).run_eval(z);
            let (d, s) = g.run_deriv(z);
            &&& r is Ok
            &&& s is Ok
            &&& d[x as int] == Some(ones_model(m.values[x as int].unwrap()))
            &&& d[y as int] == Some(ones_model(m.values[y as int].unwrap()))
        }),
{
    let z = m.kinds.len();
    let xv = m.values[x as int].unwrap();
    let yv = m.values[y as int].unwrap();
    let g0 = m.push_binary(Binary::Add, x, y);
    lemma_push_binary(m, Binary::Add, x, y);
    assert(g0.values[x as int] == Some(xv));
    assert(g0.values[y as int] == Some(yv));
    assert(g0.run_eval(x as nat) == (g0, Ok::<TensorModel<A>, crate::error::Error>(xv)));
    assert(g0.run_eval(y as nat) == (g0, Ok::<TensorModel<A>, crate::error::Error>(yv)));
    let zv = zip_model(xv, yv, add_fn::<A>())->Ok_0;
    let g = g0.with_value(z as int, zv);
    assert(g0.run_eval(z) == (g, Ok::<TensorModel<A>, crate::error::Error>(zv)));
    let seed = ones_model(zv);
    assert(seed == ones_model(xv));
    assert(seed == ones_model(yv));
    let cleared = Seq::new(g.kinds.len(), |i: int| None::<TensorModel<A>>);
    let d1 = cleared.update(z as int, Some(seed));
    let d2 = d1.update(x as int, Some(seed));
    let d3 = d2.update(y as int, Some(seed));
    lemma_leaf_backprop(g, d1, x as nat, seed);
    lemma_leaf_backprop(g, d2, y as nat, seed);
    assert(g.backprop(cleared, z, seed) == (d3, Ok::<(), crate::error::Error>(())));
}

/// Multiplying by a tensor of ones of the same shape changes nothing.
proof fn lemma_mul_ones<A: Scalar>(t: TensorModel<A>, u: TensorModel<A>)
    requires
        t.valid(),
        u.valid(),
        t.shape == u.shape,
    ensures
        zip_model(t, ones_model(u), mul_fn::<A>()) == Ok::<TensorModel<A>, crate::error::Error>(t),
{
    let o = ones_model(u);
    let p = zip_model(t, o, mul_fn::<A>())->Ok_0;
    assert forall|i: int| 0 <= i < t.elems.len() implies #[trigger] p.elems[i] == t.elems[i] by {
        A::mul_one_is_identity(t.elems[i]);
    }
    assert(p.elems =~= t.elems);
}

/// The elementwise reciprocal `1 / t`.
pub open spec fn recip_model<A: Scalar>(t: TensorModel<A>) -> TensorModel<A> {
    TensorModel {
        shape: t.shape,
        elems: Seq::new(t.elems.len(), |i: int| A::spec_one().spec_div(t.elems[i])),
    }
}

/// The elementwise `-x / (y * y)`.
pub open spec fn neg_div_square_model<A: Scalar>(x: TensorModel<A>, y: TensorModel<A>) -> TensorModel<A> {
    TensorModel {
        shape: y.shape,
        elems: Seq::new(
            y.elems.len(),
            |i: int| x.elems[i].spec_neg().spec_div(y.elems[i].spec_mul(y.elems[i])),
        ),
    }
}

/// The elementwise `2 * conj(x)`, which is `2 * x` on a real field.
pub open spec fn twice_conj_model<A: Scalar>(x: TensorModel<A>) -> TensorModel<A> {
    TensorModel {
        shape: x.shape,
        elems: Seq::new(x.elems.len(), |i: int| two::<A>().spec_mul(x.elems[i].spec_conj())),
    }
}

/// Gradient of `x * y` with respect to two distinct variables of the same
/// shape: `y` for `x`, and `x` for `y`.
pub proof fn law_mul_derivative<A: Scalar>(m: GraphModel<A>, x: usize, y: usize)
    requires
        m.well_formed(),
        m.kinds.len() < MAX_NODES,
        x < m.kinds.len(),
        y < m.kinds.len(),
        x != y,
        m.kinds[x as int] is Variable,
        m.kinds[y as int] is Variable,
        m.values[x as int] is Some,
        m.values[y as int] is Some,
        m.values[x as int].unwrap().valid(),
        m.values[y as int].unwrap().valid(),
        m.values[x as int].unwrap().shape == m.values[y as int].unwrap().shape,
    ensures
        ({
            let z = m.kinds.len();
            let (g, r) = m.push_binary(Binary::Mul, x, y).run_eval(z);
            let (d, s) = g.run_deriv(z);
            &&& r is Ok
            &&& s is Ok
            &&& d[x as int] == Some(m.values[y as int].unwrap())
            &&& d[y as int] == Some(m.values[x as int].unwrap())
        }),
{
    let z = m.kinds.len();
    let xv = m.values[x as int].unwrap();
    let yv = m.values[y as int].unwrap();
    let g0 = m.push_binary(Binary::Mul, x, y);
    lemma_push_binary(m, Binary::Mul, x, y);
    assert(g0.values[x as int] == Some(xv));
    assert(g0.values[y as int] == Some(yv));
    assert(g0.run_eval(x as nat) == (g0, Ok::<TensorModel<A>, crate::error::Error>(xv)));
    assert(g0.run_eval(y as nat) == (g0, Ok::<TensorModel<A>, crate::error::Error>(yv)));
    let zv = zip_model(xv, yv, mul_fn::<A>())->Ok_0;
    let g = g0.with_value(z as int, zv);
    assert(g0.run_eval(z) == (g, Ok::<TensorModel<A>, crate::error::Error>(zv)));
    let seed = ones_model(zv);
    assert(seed == ones_model(xv));
    lemma_mul_ones(yv, xv);
    lemma_mul_ones(xv, xv);
    let cleared = Seq::new(g.kinds.len(), |i: int| None::<TensorModel<A>>);
    let d1 = cleared.update(z as int, Some(seed));
    let d2 = d1.update(x as int, Some(yv));
    let d3 = d2.update(y as int, Some(xv));
    lemma_leaf_backprop(g, d1, x as nat, yv);
    lemma_leaf_backprop(g, d2, y as nat, xv);
    assert(g.backprop(cleared, z, seed) == (d3, Ok::<(), crate::error::Error>(())));
}

/// Gradient of `x / y` with respect to two distinct variables of the same
/// shape: `1 / y` for `x`, and `-x / y²` for `y`.
pub proof fn law_div_derivative<A: Scalar>(m: GraphModel<A>, x: usize, y: usize)
    requires
        m.well_formed(),
        m.kinds.len() < MAX_NODES,
        x < m.kinds.len(),
        y < m.kinds.len(),
        x != y,
        m.kinds[x as int] is Variable,
        m.kinds[y as int] is Variable,
        m.values[x as int] is Some,
        m.values[y as int] is Some,
        m.values[x as int].unwrap().valid(),
        m.values[y as int].unwrap().valid(),
        m.values[x as int].unwrap().shape == m.values[y as int].unwrap().shape,
    ensures
        ({
            let z = m.kinds.len();
            let (g, r) = m.push_binary(Binary::Div, x, y).run_eval(z);
            let (d, s) = g.run_deriv(z);
            &&& r is Ok
            &&& s is Ok
            &&& d[x as int] == Some(recip_model(m.values[y as int].unwrap()))
            &&& d[y as int] == Some(
                neg_div_square_model(m.values[x as int].unwrap(), m.values[y as int].unwrap()),
            )
        }),
{
    let z = m.kinds.len();
    let xv = m.values[x as int].unwrap();
    let yv = m.values[y as int].unwrap();
    let g0 = m.push_binary(Binary::Div, x, y);
    lemma_push_binary(m, Binary::Div, x, y);
    assert(g0.values[x as int] == Some(xv));
    assert(g0.values[y as int] == Some(yv));
    assert(g0.run_eval(x as nat) == (g0, Ok::<TensorModel<A>, crate::error::Error>(xv)));
    assert(g0.run_eval(y as nat) == (g0, Ok::<TensorModel<A>, crate::error::Error>(yv)));
    let zv = zip_model(xv, yv, div_fn::<A>())->Ok_0;
    let g = g0.with_value(z as int, zv);
    assert(g0.run_eval(z) == (g, Ok::<TensorModel<A>, crate::error::Error>(zv)));
    let seed = ones_model(zv);
    assert(seed == ones_model(xv));
    let dl = zip_model(seed, yv, div_fn::<A>())->Ok_0;
    assert(dl.elems =~= recip_model(yv).elems);
    let nx = map_model(xv, neg_fn::<A>());
    lemma_mul_ones(nx, xv);
    let num = zip_model(nx, seed, mul_fn::<A>())->Ok_0;
    let den = zip_model(yv, yv, mul_fn::<A>())->Ok_0;
    let dr = zip_model(num, den, div_fn::<A>())->Ok_0;
    assert(dr.elems =~= neg_div_square_model(xv, yv).elems);
    let cleared = Seq::new(g.kinds.len(), |i: int| None::<TensorModel<A>>);
    let d1 = cleared.update(z as int, Some(seed));
    let d2 = d1.update(x as int, Some(dl));
    let d3 = d2.update(y as int, Some(dr));
    lemma_leaf_backprop(g, d1, x as nat, dl);
    lemma_leaf_backprop(g, d2, y as nat, dr);
    assert(g.backprop(cleared, z, seed) == (d3, Ok::<(), crate::error::Error>(())));
}

/// Gradient of `x²` (that is `conj(x) * x`) with respect to `x`:
/// `2 * conj(x)`, which is `2 * x` where conjugation changes nothing.
pub proof fn law_square_derivative<A: Scalar>(m: GraphModel<A>, x: usize)
    requires
        m.well_formed(),
        m.kinds.len() < MAX_NODES,
        x < m.kinds.len(),
        m.kinds[x as int] is Variable,
        m.values[x as int] is Some,
        m.values[x as int].unwrap().valid(),
    ensures
        ({
            let z = m.kinds.len();
            let xv = m.values[x as int].unwrap();
            let (g, r) = m.push_unary(Unary::Square, x).run_eval(z);
            let (d, s) = g.run_deriv(z);
            &&& r is Ok
            &&& s is Ok
            &&& d[x as int] == Some(twice_conj_model(xv))
            &&& (forall|i: int| 0 <= i < xv.elems.len() ==> (#[trigger] xv.elems[i]).spec_conj()
                == xv.elems[i]) ==> d[x as int] == Some(
                TensorModel {
                    shape: xv.shape,
                    elems: Seq::new(xv.elems.len(), |i: int| two::<A>().spec_mul(xv.elems[i])),
                },
            )
        }),
{
    let z = m.kinds.len();
    let xv = m.values[x as int].unwrap();
    let g0 = m.push_unary(Unary::Square, x);
    lemma_push_unary(m, Unary::Square, x);
    assert(g0.values[x as int] == Some(xv));
    assert(g0.run_eval(x as nat) == (g0, Ok::<TensorModel<A>, crate::error::Error>(xv)));
    let zv = Unary::Square.spec_value(xv);
    let g = g0.with_value(z as int, zv);
    assert(g0.run_eval(z) == (g, Ok::<TensorModel<A>, crate::error::Error>(zv)));
    let seed = ones_model(zv);
    let dx = Unary::Square.spec_deriv(xv, seed)->Ok_0;
    assert forall|i: int| 0 <= i < xv.elems.len() implies #[trigger] dx.elems[i]
        == two::<A>().spec_mul(xv.elems[i].spec_conj()) by {
        crate::scalar::lemma_one_mul(two::<A>().spec_mul(xv.elems[i].spec_conj()));
    }
    assert(dx.elems =~= twice_conj_model(xv).elems);
    let cleared = Seq::new(g.kinds.len(), |i: int| None::<TensorModel<A>>);
    let d1 = cleared.update(z as int, Some(seed));
    let d2 = d1.update(x as int, Some(dx));
    lemma_leaf_backprop(g, d1, x as nat, dx);
    assert(g.backprop(cleared, z, seed) == (d2, Ok::<(), crate::error::Error>(())));
    if forall|i: int| 0 <= i < xv.elems.len() ==> (#[trigger] xv.elems[i]).spec_conj() == xv.elems[i] {
        assert(twice_conj_model(xv).elems =~= Seq::new(
            xv.elems.len(),
            |i: int| two::<A>().spec_mul(xv.elems[i]),
        ));
    }
}

/// `(1 * (2 * conj(s))) * c + (1 * (2 * conj(c))) * (-s) == 0` when
/// conjugation leaves `s` and `c` unchanged.
proof fn lemma_sin_cos_cancel<A: Scalar>(s: A, c: A)
    requires
        s.spec_conj() == s,
        c.spec_conj() == c,
    ensures
        A::spec_one().spec_mul(two::<A>().spec_mul(s.spec_conj())).spec_mul(c).spec_add(
            A::spec_one().spec_mul(two::<A>().spec_mul(c.spec_conj())).spec_mul(s.spec_neg()),
        ) == A::spec_zero(),
{
    let t = two::<A>();
    crate::scalar::lemma_one_mul(t.spec_mul(s));
    crate::scalar::lemma_one_mul(t.spec_mul(c));
    let u = t.spec_mul(s).spec_mul(c);
    crate::scalar::lemma_mul_neg(t.spec_mul(c), s);
    A::mul_associates(t, c, s);
    A::mul_commutes(c, s);
    A::mul_associates(t, s, c);
    A::add_neg_is_zero(u);
}

/// The tensor of zeros shaped like `t`.
pub open spec fn zeros_model<A: Scalar>(t: TensorModel<A>) -> TensorModel<A> {
    TensorModel { shape: t.shape, elems: Seq::new(t.elems.len(), |i: int| A::spec_zero()) }
}

/// Gradient of `sin²(x) + cos²(x)` with respect to a variable `x` whose
/// sines and cosines are real (conjugation leaves them unchanged): zero.
/// The chain rule runs through two squares, a sine and a cosine, and the
/// two paths that reach `x` are summed.
pub proof fn law_sin_cos_derivative<A: Scalar>(m: GraphModel<A>, x: usize)
    requires
        m.well_formed(),
        m.kinds.len() + 5 < MAX_NODES,
        x < m.kinds.len(),
        m.kinds[x as int] is Variable,
        m.values[x as int] is Some,
        m.values[x as int].unwrap().valid(),
        forall|i: int|
            0 <= i < m.values[x as int].unwrap().elems.len() ==> {
                let a = #[trigger] m.values[x as int].unwrap().elems[i];
                &&& a.spec_sin().spec_conj() == a.spec_sin()
                &&& a.spec_cos().spec_conj() == a.spec_cos()
            },
    ensures
        ({
            let n = m.kinds.len() as usize;
            let expr = m.push_unary(Unary::Sin, x).push_unary(Unary::Square, n).push_unary(
                Unary::Cos,
                x,
            ).push_unary(Unary::Square, (n + 2) as usize).push_binary(
                Binary::Add,
                (n + 1) as usize,
                (n + 3) as usize,
            );
            let (g, r) = expr.run_eval((n + 4) as nat);
            let (d, s) = g.run_deriv((n + 4) as nat);
            &&& r is Ok
            &&& s is Ok
            &&& d[x as int] == Some(zeros_model(m.values[x as int].unwrap()))
        }),
{
    let n = m.kinds.len() as usize;
    let (sn, ssn, cn, ccn, zn) = (n, (n + 1) as usize, (n + 2) as usize, (n + 3) as usize, (n + 4) as usize);
    let xv = m.values[x as int].unwrap();
    let g1 = m.push_unary(Unary::Sin, x);
    let g2 = g1.push_unary(Unary::Square, sn);
    let g3 = g2.push_unary(Unary::Cos, x);
    let g4 = g3.push_unary(Unary::Square, cn);
    let g5 = g4.push_binary(Binary::Add, ssn, ccn);
    lemma_push_unary(m, Unary::Sin, x);
    lemma_push_unary(g1, Unary::Square, sn);
    lemma_push_unary(g2, Unary::Cos, x);
    lemma_push_unary(g3, Unary::Square, cn);
    lemma_push_binary(g4, Binary::Add, ssn, ccn);
    assert(g5.args(sn as int) == seq![x]);
    assert(g5.args(ssn as int) == seq![sn]);
    assert(g5.args(cn as int) == seq![x]);
    assert(g5.args(ccn as int) == seq![cn]);
    assert(g5.args(zn as int) == seq![ccn, ssn]);
    assert(g5.kinds[sn as int] == Property::Unary(Unary::Sin));
    assert(g5.kinds[ssn as int] == Property::Unary(Unary::Square));
    assert(g5.kinds[cn as int] == Property::Unary(Unary::Cos));
    assert(g5.kinds[ccn as int] == Property::Unary(Unary::Square));
    assert(g5.kinds[zn as int] == Property::Binary(Binary::Add));
    assert(g5.kinds[x as int] == Property::Variable);
    assert(g5.values[x as int] == Some(xv));
    assert(g5.values[sn as int] is None);
    assert(g5.values[ssn as int] is None);
    assert(g5.values[cn as int] is None);
    assert(g5.values[ccn as int] is None);
    assert(g5.values[zn as int] is None);
    // forward pass
    let sv = Unary::Sin.spec_value(xv);
    let ssv = Unary::Square.spec_value(sv);
    let cv = Unary::Cos.spec_value(xv);
    let ccv = Unary::Square.spec_value(cv);
    let h1 = g5.with_value(sn as int, sv);
    let h2 = h1.with_value(ssn as int, ssv);
    let h3 = h2.with_value(cn as int, cv);
    let h4 = h3.with_value(ccn as int, ccv);
    assert(g5.run_eval(x as nat) == (g5, Ok::<TensorModel<A>, crate::error::Error>(xv)));
    assert(g5.run_eval(sn as nat) == (h1, Ok::<TensorModel<A>, crate::error::Error>(sv)));
    assert(g5.run_eval(ssn as nat) == (h2, Ok::<TensorModel<A>, crate::error::Error>(ssv)));
    assert(h2.values[x as int] == Some(xv));
    assert(h2.run_eval(x as nat) == (h2, Ok::<TensorModel<A>, crate::error::Error>(xv)));
    assert(h2.args(cn as int) == seq![x]);
    assert(h2.run_eval(cn as nat) == (h3, Ok::<TensorModel<A>, crate::error::Error>(cv)));
    assert(h3.args(ccn as int) == seq![cn]);
    assert(h2.run_eval(ccn as nat) == (h4, Ok::<TensorModel<A>, crate::error::Error>(ccv)));
    let zv = zip_model(ssv, ccv, add_fn::<A>())->Ok_0;
    let g = h4.with_value(zn as int, zv);
    assert(g5.run_eval(zn as nat) == (g, Ok::<TensorModel<A>, crate::error::Error>(zv)));
    // backward pass
    let one = ones_model(zv);
    assert(one == ones_model(xv));
    assert(g.values[x as int] == Some(xv));
    assert(g.values[sn as int] == Some(sv));
    assert(g.values[cn as int] == Some(cv));
    assert(g.args(zn as int) == seq![ccn, ssn]);
    assert(g.args(ssn as int) == seq![sn]);
    assert(g.args(sn as int) == seq![x]);
    assert(g.args(ccn as int) == seq![cn]);
    assert(g.args(cn as int) == seq![x]);
    let ds = Unary::Square.spec_deriv(sv, one)->Ok_0;
    let dx1 = Unary::Sin.spec_deriv(xv, ds)->Ok_0;
    let dc = Unary::Square.spec_deriv(cv, one)->Ok_0;
    let dx2 = Unary::Cos.spec_deriv(xv, dc)->Ok_0;
    let total = zip_model(dx1, dx2, add_fn::<A>())->Ok_0;
    let cleared = Seq::new(g.kinds.len(), |i: int| None::<TensorModel<A>>);
    let d1 = cleared.update(zn as int, Some(one));
    let d2 = d1.update(ssn as int, Some(one));
    let d3 = d2.update(sn as int, Some(ds));
    let d4 = d3.update(x as int, Some(dx1));
    let d5 = d4.update(ccn as int, Some(one));
    let d6 = d5.update(cn as int, Some(dc));
    let d7 = d6.update(x as int, Some(total));
    lemma_leaf_backprop(g, d3, x as nat, dx1);
    assert(g.backprop(d2, sn as nat, ds) == (d4, Ok::<(), crate::error::Error>(())));
    assert(g.backprop(d1, ssn as nat, one) == (d4, Ok::<(), crate::error::Error>(())));
    assert(d6[x as int] == Some(dx1));
    assert(g.backprop(d6, x as nat, dx2) == (d7, Ok::<(), crate::error::Error>(())));
    assert(g.backprop(d5, cn as nat, dc) == (d7, Ok::<(), crate::error::Error>(())));
    assert(g.backprop(d4, ccn as nat, one) == (d7, Ok::<(), crate::error::Error>(())));
    assert(Binary::Add.spec_deriv(ssv, ccv, one) == Ok::<
        (TensorModel<A>, TensorModel<A>),
        crate::error::Error,
    >((one, one)));
    assert(g.backprop(cleared, zn as nat, one) == (d7, Ok::<(), crate::error::Error>(())));
    assert forall|i: int| 0 <= i < xv.elems.len() implies #[trigger] total.elems[i] == A::spec_zero() by {
        let a = xv.elems[i];
        lemma_sin_cos_cancel(a.spec_sin(), a.spec_cos());
    }
    assert(total.elems =~= zeros_model(xv).elems);
}

} // verus!
