//! Calculation graph.
//!
//! Nodes are kept in a `petgraph` directed graph whose node weights are the
//! node kinds; an edge runs from each operand to the operator node that
//! consumes it. Values and gradients live beside it, indexed by node.
//! Nodes are only ever appended and every edge ends at the node created with
//! it, so the graph is acyclic by construction.

use crate::error::Error;
use crate::operator::{add_fn, result_model, zip_add, Binary, BinaryOperator, Unary, UnaryOperator};
use crate::scalar::Scalar;
use crate::tensor::{ones_model, zip_model, Tensor, TensorModel};
use petgraph::graph::Graph as PetGraph;
use vstd::prelude::*;

verus! {

#[verifier::external_type_specification]
#[verifier::external_body]
#[verifier::reject_recursive_types(N)]
#[verifier::reject_recursive_types(E)]
#[verifier::reject_recursive_types(Ty)]
#[verifier::reject_recursive_types(Ix)]
pub struct ExPetGraph<N, E, Ty, Ix>(PetGraph<N, E, Ty, Ix>);

#[verifier::external_type_specification]
#[verifier::external_body]
pub struct ExDirected(petgraph::Directed);

/// Node weights of a store, by node index.
pub uninterp spec fn store_nodes(g: PetGraph<Property, ()>) -> Seq<Property>;

/// Edges of a store as (source, target), in the order they were added.
pub uninterp spec fn store_edges(g: PetGraph<Property, ()>) -> Seq<(usize, usize)>;

/// Relies on `petgraph::graph::Graph::new`: a directed graph with no nodes
/// and no edges.
#[verifier::external_body]
fn store_new() -> (g: PetGraph<Property, ()>)
    ensures
        store_nodes(g) == Seq::<Property>::empty(),
        store_edges(g) == Seq::<(usize, usize)>::empty(),
{
    PetGraph::new()
}

/// Relies on `petgraph::graph::Graph::add_node`: pushes the weight and
/// returns the previous node count as the new index; it panics only when the
/// count reaches `u32::MAX`.
#[verifier::external_body]
fn store_add_node(g: &mut PetGraph<Property, ()>, weight: Property) -> (r: usize)
    requires
        store_nodes(*old(g)).len() < u32::MAX,
    ensures
        r == store_nodes(*old(g)).len(),
        store_nodes(*final(g)) == store_nodes(*old(g)).push(weight),
        store_edges(*final(g)) == store_edges(*old(g)),
{
    g.add_node(weight).index()
}

/// Relies on `petgraph::graph::Graph::add_edge`: pushes the edge `a -> b`;
/// it panics only on a missing node or when the edge count reaches
/// `u32::MAX`.
#[verifier::external_body]
fn store_add_edge(g: &mut PetGraph<Property, ()>, a: usize, b: usize)
    requires
        a < store_nodes(*old(g)).len(),
        b < store_nodes(*old(g)).len(),
        store_edges(*old(g)).len() < u32::MAX,
    ensures
        store_nodes(*final(g)) == store_nodes(*old(g)),
        store_edges(*final(g)) == store_edges(*old(g)).push((a, b)),
{
    g.add_edge(petgraph::graph::NodeIndex::new(a), petgraph::graph::NodeIndex::new(b), ());
}

/// Relies on indexing `petgraph::graph::Graph` by node: the weight of node
/// `n`.
#[verifier::external_body]
fn store_node(g: &PetGraph<Property, ()>, n: usize) -> (r: Property)
    requires
        n < store_nodes(*g).len(),
    ensures
        r == store_nodes(*g)[n as int],
{
    g[petgraph::graph::NodeIndex::new(n)]
}

/// Relies on `petgraph::graph::Graph::neighbors_directed` with `Incoming`:
/// on a directed graph it lists the source of every edge into `n`, the most
/// recently added edge first.
#[verifier::external_body]
fn store_incoming(g: &PetGraph<Property, ()>, n: usize) -> (r: Vec<usize>)
    requires
        n < store_nodes(*g).len(),
    ensures
        r@ == incoming(store_edges(*g), n as int),
{
    g.neighbors_directed(petgraph::graph::NodeIndex::new(n), petgraph::Direction::Incoming).map(
        |i| i.index(),
    ).collect()
}

/// Sources of the edges into `n`, latest edge first.
pub open spec fn incoming(edges: Seq<(usize, usize)>, n: int) -> Seq<usize>
    decreases edges.len(),
{
    if edges.len() == 0 {
        Seq::empty()
    } else {
        let rest = incoming(edges.drop_last(), n);
        if edges.last().1 == n {
            seq![edges.last().0].add(rest)
        } else {
            rest
        }
    }
}

pub proof fn lemma_incoming_push(edges: Seq<(usize, usize)>, e: (usize, usize), n: int)
    ensures
        incoming(edges.push(e), n) == if e.1 == n {
            seq![e.0].add(incoming(edges, n))
        } else {
            incoming(edges, n)
        },
{
    assert(edges.push(e).drop_last() =~= edges);
}

pub proof fn lemma_incoming_none(edges: Seq<(usize, usize)>, n: int)
    requires
        forall|i: int| 0 <= i < edges.len() ==> (#[trigger] edges[i]).1 != n,
    ensures
        incoming(edges, n) == Seq::<usize>::empty(),
    decreases edges.len(),
{
    if edges.len() > 0 {
        lemma_incoming_none(edges.drop_last(), n);
    }
}

/// Upper bound on the number of nodes of a graph, set by the 32-bit indices
/// of the node store.
pub const MAX_NODES: usize = 0x7fff_fffe;

/// Kind of a node.
#[derive(Clone, Copy, Debug, PartialEq, Eq)]
pub enum Property {
    /// Value given at creation, never changed.
    Constant,
    /// Value given and changed by the client.
    Variable,
    /// Value computed from one operand.
    Unary(Unary),
    /// Value computed from a left-hand and a right-hand operand.
    Binary(Binary),
}

/// Stable handle of a node in a graph.
#[derive(Clone, Copy, Debug, PartialEq, Eq, Hash)]
pub struct NodeIndex(pub usize);

impl NodeIndex {
    pub fn new(index: usize) -> (r: NodeIndex)
        ensures
            r.0 == index,
    {
        NodeIndex(index)
    }

    pub fn index(&self) -> (r: usize)
        ensures
            r == self.0,
    {
        self.0
    }
}

/// Mathematical content of a graph.
pub struct GraphModel<A> {
    /// Kind of each node, by index.
    pub kinds: Seq<Property>,
    /// Edges as (operand, operator), in the order they were connected.
    pub edges: Seq<(usize, usize)>,
    /// Cached or assigned value of each node.
    pub values: Seq<Option<TensorModel<A>>>,
    /// Gradient of each node from the last differentiation pass.
    pub derivs: Seq<Option<TensorModel<A>>>,
    /// Namespace of named nodes.
    pub names: Map<Seq<char>, usize>,
}

impl<A> GraphModel<A> {
    /// Operands of node `n`: the right-hand operand first, since it was
    /// connected last.
    pub open spec fn args(self, n: int) -> Seq<usize> {
        incoming(self.edges, n)
    }

    pub open spec fn node_ok(self, n: int) -> bool {
        match self.kinds[n] {
            Property::Constant => self.values[n] is Some,
            Property::Variable => true,
            Property::Unary(_) => self.args(n).len() == 1 && self.args(n)[0] < n,
            Property::Binary(_) => {
                &&& self.args(n).len() == 2
                &&& self.args(n)[0] < n
                &&& self.args(n)[1] < n
            },
        }
    }

    pub open spec fn well_formed(self) -> bool {
        &&& self.values.len() == self.kinds.len()
        &&& self.derivs.len() == self.kinds.len()
        &&& self.kinds.len() <= MAX_NODES
        &&& self.edges.len() <= 2 * self.kinds.len()
        &&& forall|e: int| 0 <= e < self.edges.len() ==> (#[trigger] self.edges[e]).1 < self.kinds.len()
        &&& forall|n: int| 0 <= n < self.kinds.len() ==> #[trigger] self.node_ok(n)
        &&& forall|k: Seq<char>| #[trigger] self.names.contains_key(k) ==> self.names[k] < self.kinds.len()
    }

    /// The model with one more node, without operands.
    pub open spec fn push_node(self, kind: Property, value: Option<TensorModel<A>>) -> GraphModel<A> {
        GraphModel {
            kinds: self.kinds.push(kind),
            values: self.values.push(value),
            derivs: self.derivs.push(None),
            ..self
        }
    }

    /// The model with one more edge.
    pub open spec fn push_edge(self, a: usize, b: usize) -> GraphModel<A> {
        GraphModel { edges: self.edges.push((a, b)), ..self }
    }

    /// The model with one more unary operator node on `arg`.
    pub open spec fn push_unary(self, op: Unary, arg: usize) -> GraphModel<A> {
        self.push_node(Property::Unary(op), None).push_edge(arg, self.kinds.len() as usize)
    }

    /// The model with one more binary operator node on `lhs` and `rhs`,
    /// connected in that order.
    pub open spec fn push_binary(self, op: Binary, lhs: usize, rhs: usize) -> GraphModel<A> {
        self.push_node(Property::Binary(op), None).push_edge(
            lhs,
            self.kinds.len() as usize,
        ).push_edge(rhs, self.kinds.len() as usize)
    }

    /// The model with node `n` given the value `v`.
    pub open spec fn with_value(self, n: int, v: TensorModel<A>) -> GraphModel<A> {
        GraphModel { values: self.values.update(n, Some(v)), ..self }
    }

    /// The model with the given gradients.
    pub open spec fn with_derivs(self, derivs: Seq<Option<TensorModel<A>>>) -> GraphModel<A> {
        GraphModel { derivs, ..self }
    }
}

impl<A: Scalar> GraphModel<A> {
    /// Forward evaluation of node `n`: the model after the values computed
    /// on the way have been cached, and the value of `n` or the first error.
    /// A node that holds a value is not evaluated again; the left-hand
    /// operand of a binary node is evaluated before the right-hand one.
    pub open spec fn run_eval(self, n: nat) -> (GraphModel<A>, Result<TensorModel<A>, Error>)
        decreases n,
    {
        if n >= self.kinds.len() {
            (self, Err(Error::ValueUninitialized { index: n as usize }))
        } else {
            match self.values[n as int] {
                Some(v) => (self, Ok(v)),
                None => {
                    let a = self.args(n as int);
                    match self.kinds[n as int] {
                        Property::Unary(op) => if a.len() == 1 && a[0] < n {
                            let (m1, r1) = self.run_eval(a[0] as nat);
                            match r1 {
                                Ok(x) => {
                                    let v = op.spec_value(x);
                                    (m1.with_value(n as int, v), Ok(v))
                                },
                                Err(e) => (m1, Err(e)),
                            }
                        } else {
                            (self, Err(Error::ValueUninitialized { index: n as usize }))
                        },
                        Property::Binary(op) => if a.len() == 2 && a[0] < n && a[1] < n {
                            let (m1, r1) = self.run_eval(a[1] as nat);
                            match r1 {
                                Ok(l) => {
                                    let (m2, r2) = m1.run_eval(a[0] as nat);
                                    match r2 {
                                        Ok(r) => match op.spec_value(l, r) {
                                            Ok(v) => (m2.with_value(n as int, v), Ok(v)),
                                            Err(e) => (m2, Err(e)),
                                        },
                                        Err(e) => (m2, Err(e)),
                                    }
                                },
                                Err(e) => (m1, Err(e)),
                            }
                        } else {
                            (self, Err(Error::ValueUninitialized { index: n as usize }))
                        },
                        _ => (self, Err(Error::ValueUninitialized { index: n as usize })),
                    }
                },
            }
        }
    }

    /// Evaluation only fills in values: it changes no kind, edge, gradient
    /// or name, and keeps every value that was already there.
    pub open spec fn fills(self, before: GraphModel<A>) -> bool {
        &&& self.kinds == before.kinds
        &&& self.edges == before.edges
        &&& self.derivs == before.derivs
        &&& self.names == before.names
        &&& self.values.len() == before.values.len()
        &&& forall|i: int|
            0 <= i < before.values.len() && (#[trigger] before.values[i]) is Some
                ==> self.values[i] == before.values[i]
    }
}

pub proof fn lemma_run_eval_fills<A: Scalar>(m: GraphModel<A>, n: nat)
    requires
        m.well_formed(),
    ensures
        m.run_eval(n).0.fills(m),
        m.run_eval(n).0.well_formed(),
        m.run_eval(n).1 matches Ok(v) ==> n < m.kinds.len() && m.run_eval(n).0.values[n as int]
            == Some(v),
    decreases n,
{
    if n < m.kinds.len() && m.values[n as int] is None {
        let a = m.args(n as int);
        assert(m.node_ok(n as int));
        match m.kinds[n as int] {
            Property::Unary(op) => {
                lemma_run_eval_fills(m, a[0] as nat);
                let m1 = m.run_eval(a[0] as nat).0;
                if let Ok(x) = m.run_eval(a[0] as nat).1 {
                    let f = m1.with_value(n as int, op.spec_value(x));
                    assert forall|i: int| 0 <= i < f.kinds.len() implies #[trigger] f.node_ok(i) by {
                        assert(m1.node_ok(i));
                    }
                }
            },
            Property::Binary(op) => {
                lemma_run_eval_fills(m, a[1] as nat);
                let m1 = m.run_eval(a[1] as nat).0;
                if let Ok(l) = m.run_eval(a[1] as nat).1 {
                    lemma_run_eval_fills(m1, a[0] as nat);
                    let m2 = m1.run_eval(a[0] as nat).0;
                    if let Ok(r) = m1.run_eval(a[0] as nat).1 {
                        if let Ok(v) = op.spec_value(l, r) {
                            let f = m2.with_value(n as int, v);
                            assert forall|i: int| 0 <= i < f.kinds.len() implies #[trigger] f.node_ok(
                                i,
                            ) by {
                                assert(m2.node_ok(i));
                            }
                        }
                    }
                }
            },
            _ => {},
        }
    }
}

/// A gradient contribution `der` added to what a node has gathered so far.
pub open spec fn accumulate<A: Scalar>(d: Option<TensorModel<A>>, der: TensorModel<A>) -> Result<
    TensorModel<A>,
    Error,
> {
    match d {
        Some(last) => zip_model(last, der, add_fn::<A>()),
        None => Ok(der),
    }
}

impl<A: Scalar> GraphModel<A> {
    /// Backward pass from node `n` with incoming gradient `der`, starting
    /// from the gradients `derivs`: the gradients afterwards, and whether the
    /// pass completed. The node first adds `der` to its gradient; an operator
    /// node then hands each operand its local contribution, the left-hand
    /// operand first. A node reached along several paths gathers the sum.
    pub open spec fn backprop(self, derivs: Seq<Option<TensorModel<A>>>, n: nat, der: TensorModel<A>) -> (
        Seq<Option<TensorModel<A>>>,
        Result<(), Error>,
    )
        decreases n,
    {
        if n >= self.kinds.len() {
            (derivs, Ok(()))
        } else {
            match accumulate(derivs[n as int], der) {
                Err(e) => (derivs, Err(e)),
                Ok(acc) => {
                    let d1 = derivs.update(n as int, Some(acc));
                    let a = self.args(n as int);
                    match self.kinds[n as int] {
                        Property::Unary(op) => if a.len() == 1 && a[0] < n {
                            match self.values[a[0] as int] {
                                None => (d1, Err(Error::ValueUninitialized { index: a[0] })),
                                Some(x) => match op.spec_deriv(x, der) {
                                    Ok(cd) => self.backprop(d1, a[0] as nat, cd),
                                    Err(e) => (d1, Err(e)),
                                },
                            }
                        } else {
                            (d1, Ok(()))
                        },
                        Property::Binary(op) => if a.len() == 2 && a[0] < n && a[1] < n {
                            match self.values[a[1] as int] {
                                None => (d1, Err(Error::ValueUninitialized { index: a[1] })),
                                Some(lv) => match self.values[a[0] as int] {
                                    None => (d1, Err(Error::ValueUninitialized { index: a[0] })),
                                    Some(rv) => match op.spec_deriv(lv, rv, der) {
                                        Err(e) => (d1, Err(e)),
                                        Ok((ld, rd)) => {
                                            let (d2, s2) = self.backprop(d1, a[1] as nat, ld);
                                            match s2 {
                                                Ok(_) => self.backprop(d2, a[0] as nat, rd),
                                                Err(e) => (d2, Err(e)),
                                            }
                                        },
                                    },
                                },
                            }
                        } else {
                            (d1, Ok(()))
                        },
                        _ => (d1, Ok(())),
                    }
                },
            }
        }
    }

    /// Differentiation of node `out`: every gradient is cleared, then the
    /// backward pass starts at `out` with a tensor of ones shaped like its
    /// value.
    pub open spec fn run_deriv(self, out: nat) -> (Seq<Option<TensorModel<A>>>, Result<(), Error>) {
        self.backprop(
            Seq::new(self.kinds.len(), |i: int| None),
            out,
            ones_model(self.values[out as int].unwrap()),
        )
    }
}

/// The backward pass reads only kinds, edges and values.
pub proof fn lemma_backprop_congruent<A: Scalar>(
    m1: GraphModel<A>,
    m2: GraphModel<A>,
    derivs: Seq<Option<TensorModel<A>>>,
    n: nat,
    der: TensorModel<A>,
)
    requires
        m1.kinds == m2.kinds,
        m1.edges == m2.edges,
        m1.values == m2.values,
    ensures
        m1.backprop(derivs, n, der) == m2.backprop(derivs, n, der),
    decreases n,
{
    if n < m1.kinds.len() {
        if let Ok(acc) = accumulate(derivs[n as int], der) {
            let d1 = derivs.update(n as int, Some(acc));
            let a = m1.args(n as int);
            match m1.kinds[n as int] {
                Property::Unary(op) => {
                    if a.len() == 1 && a[0] < n {
                        if let Some(x) = m1.values[a[0] as int] {
                            if let Ok(cd) = op.spec_deriv(x, der) {
                                lemma_backprop_congruent(m1, m2, d1, a[0] as nat, cd);
                            }
                        }
                    }
                },
                Property::Binary(op) => {
                    if a.len() == 2 && a[0] < n && a[1] < n {
                        if let (Some(lv), Some(rv)) = (m1.values[a[1] as int], m1.values[a[0] as int]) {
                            if let Ok((ld, rd)) = op.spec_deriv(lv, rv, der) {
                                lemma_backprop_congruent(m1, m2, d1, a[1] as nat, ld);
                                let d2 = m1.backprop(d1, a[1] as nat, ld).0;
                                lemma_backprop_congruent(m1, m2, d2, a[0] as nat, rd);
                            }
                        }
                    }
                },
                _ => {},
            }
        }
    }
}

/// A constant evaluates to the value it was created with, however many
/// evaluations of any nodes come before.
pub proof fn law_constant_value<A: Scalar>(m: GraphModel<A>, c: nat, n: nat)
    requires
        m.well_formed(),
        c < m.kinds.len(),
        m.kinds[c as int] is Constant,
    ensures
        m.values[c as int] is Some,
        m.run_eval(c) == (m, Ok::<TensorModel<A>, Error>(m.values[c as int].unwrap())),
        m.run_eval(n).0.values[c as int] == m.values[c as int],
        m.run_eval(n).0.run_eval(c).1 == Ok::<TensorModel<A>, Error>(m.values[c as int].unwrap()),
{
    assert(m.node_ok(c as int));
    lemma_run_eval_fills(m, n);
}

/// Evaluating a node a second time returns the cached result and changes
/// nothing.
pub proof fn law_eval_memoized<A: Scalar>(m: GraphModel<A>, n: nat)
    requires
        m.well_formed(),
        m.run_eval(n).1 is Ok,
    ensures
        m.run_eval(n).0.run_eval(n) == m.run_eval(n),
{
    lemma_run_eval_fills(m, n);
}

/// After a variable is created under a fresh name, the name is bound to it,
/// so creating another variable under that name is refused and leaves the
/// graph as it is (see [`Graph::empty_variable`]).
pub proof fn law_name_bound_once<A: Scalar>(
    m: GraphModel<A>,
    name: Seq<char>,
    value: Option<TensorModel<A>>,
)
    requires
        m.well_formed(),
        !m.names.contains_key(name),
    ensures
        ({
            let m1 = GraphModel {
                names: m.names.insert(name, m.kinds.len() as usize),
                ..m.push_node(Property::Variable, value)
            };
            &&& m1.names.contains_key(name)
            &&& m1.names[name] == m.kinds.len()
            &&& m1.kinds[m.kinds.len() as int] is Variable
        }),
{
}

impl<A> GraphModel<A> {
    /// Whether node `v` is `n` itself or, transitively, an operand of it.
    pub open spec fn reaches(self, n: nat, v: nat) -> bool
        decreases n,
    {
        if n == v {
            true
        } else if n >= self.kinds.len() {
            false
        } else {
            let a = self.args(n as int);
            match self.kinds[n as int] {
                Property::Unary(_) => a.len() == 1 && a[0] < n && self.reaches(a[0] as nat, v),
                Property::Binary(_) => a.len() == 2 && a[0] < n && a[1] < n && (self.reaches(
                    a[1] as nat,
                    v,
                ) || self.reaches(a[0] as nat, v)),
                _ => false,
            }
        }
    }
}

/// A completed backward pass from `n` gives a gradient to exactly the nodes
/// that `n` reaches, besides those that had one.
pub proof fn lemma_backprop_reach<A: Scalar>(
    m: GraphModel<A>,
    derivs: Seq<Option<TensorModel<A>>>,
    n: nat,
    der: TensorModel<A>,
)
    requires
        n < m.kinds.len(),
        derivs.len() == m.kinds.len(),
        m.backprop(derivs, n, der).1 is Ok,
    ensures
        m.backprop(derivs, n, der).0.len() == derivs.len(),
        forall|v: int|
            0 <= v < m.kinds.len() ==> ((#[trigger] m.backprop(derivs, n, der).0[v]) is Some <==> (
            derivs[v] is Some || m.reaches(n, v as nat))),
    decreases n,
{
    let acc = accumulate(derivs[n as int], der)->Ok_0;
    let d1 = derivs.update(n as int, Some(acc));
    let a = m.args(n as int);
    match m.kinds[n as int] {
        Property::Unary(op) => {
            if a.len() == 1 && a[0] < n {
                let x = m.values[a[0] as int]->Some_0;
                let cd = op.spec_deriv(x, der)->Ok_0;
                lemma_backprop_reach(m, d1, a[0] as nat, cd);
            }
        },
        Property::Binary(op) => {
            if a.len() == 2 && a[0] < n && a[1] < n {
                let lv = m.values[a[1] as int]->Some_0;
                let rv = m.values[a[0] as int]->Some_0;
                let (ld, rd) = op.spec_deriv(lv, rv, der)->Ok_0;
                lemma_backprop_reach(m, d1, a[1] as nat, ld);
                let d2 = m.backprop(d1, a[1] as nat, ld).0;
                lemma_backprop_reach(m, d2, a[0] as nat, rd);
            }
        },
        _ => {},
    }
}

/// After a differentiation pass of `out` that completes, a node holds a
/// gradient exactly when `out` reaches it.
pub proof fn law_deriv_defined_on_reached<A: Scalar>(m: GraphModel<A>, out: nat)
    requires
        m.well_formed(),
        out < m.kinds.len(),
        m.run_deriv(out).1 is Ok,
    ensures
        forall|v: int|
            0 <= v < m.kinds.len() ==> ((#[trigger] m.run_deriv(out).0[v]) is Some <==> m.reaches(
                out,
                v as nat,
            )),
{
    let cleared = Seq::new(m.kinds.len(), |i: int| None::<TensorModel<A>>);
    lemma_backprop_reach(m, cleared, out, ones_model(m.values[out as int].unwrap()));
}

/// The namespace described by a list of (name, node) entries.
pub open spec fn names_of(entries: Seq<(String, NodeIndex)>) -> Map<Seq<char>, usize>
    decreases entries.len(),
{
    if entries.len() == 0 {
        Map::empty()
    } else {
        names_of(entries.drop_last()).insert(entries.last().0@, entries.last().1.0)
    }
}

pub open spec fn distinct_names(entries: Seq<(String, NodeIndex)>) -> bool {
    forall|i: int, j: int|
        0 <= i < entries.len() && 0 <= j < entries.len() && i != j ==> (#[trigger] entries[i]).0@
            != (#[trigger] entries[j]).0@
}

proof fn lemma_names_of(entries: Seq<(String, NodeIndex)>, k: Seq<char>)
    requires
        distinct_names(entries),
    ensures
        names_of(entries).contains_key(k) <==> exists|i: int|
            0 <= i < entries.len() && (#[trigger] entries[i]).0@ == k,
        forall|i: int|
            0 <= i < entries.len() && (#[trigger] entries[i]).0@ == k ==> names_of(entries)[k]
                == entries[i].1.0,
    decreases entries.len(),
{
    if entries.len() > 0 {
        let init = entries.drop_last();
        assert forall|i: int, j: int|
            0 <= i < init.len() && 0 <= j < init.len() && i != j implies (#[trigger] init[i]).0@
            != (#[trigger] init[j]).0@ by {
            assert(init[i] == entries[i] && init[j] == entries[j]);
        }
        lemma_names_of(init, k);
        if names_of(entries).contains_key(k) && entries.last().0@ != k {
            let i = choose|i: int| 0 <= i < init.len() && (#[trigger] init[i]).0@ == k;
            assert(entries[i] == init[i]);
        }
        assert forall|i: int| 0 <= i < entries.len() && (#[trigger] entries[i]).0@ == k implies names_of(
            entries,
        )[k] == entries[i].1.0 by {
            if i < entries.len() - 1 {
                assert(entries[i] == init[i]);
            }
        }
        if exists|i: int| 0 <= i < entries.len() && (#[trigger] entries[i]).0@ == k {
            let i = choose|i: int| 0 <= i < entries.len() && (#[trigger] entries[i]).0@ == k;
            if i < entries.len() - 1 {
                assert(init[i] == entries[i]);
            }
        }
    }
}

pub open spec fn option_model<A>(v: Option<Tensor<A>>) -> Option<TensorModel<A>> {
    match v {
        Some(t) => Some(t@),
        None => None,
    }
}

/// Calculation graph over tensors of the scalar type `A`.
pub struct Graph<A> {
    graph: PetGraph<Property, ()>,
    values: Vec<Option<Tensor<A>>>,
    derivs: Vec<Option<Tensor<A>>>,
    namespace: Vec<(String, NodeIndex)>,
}

impl<A> View for Graph<A> {
    type V = GraphModel<A>;

    closed spec fn view(&self) -> GraphModel<A> {
        GraphModel {
            kinds: store_nodes(self.graph),
            edges: store_edges(self.graph),
            values: self.values@.map_values(|v: Option<Tensor<A>>| option_model(v)),
            derivs: self.derivs@.map_values(|v: Option<Tensor<A>>| option_model(v)),
            names: names_of(self.namespace@),
        }
    }
}

impl<A: Scalar> Graph<A> {
    /// Internal consistency of the graph.
    pub closed spec fn wf(&self) -> bool {
        &&& self@.well_formed()
        &&& distinct_names(self.namespace@)
        &&& self.values@.len() == store_nodes(self.graph).len()
        &&& self.derivs@.len() == store_nodes(self.graph).len()
    }

    /// An empty graph.
    pub fn new() -> (r: Self)
        ensures
            r.wf(),
            r@.kinds == Seq::<Property>::empty(),
            r@.edges == Seq::<(usize, usize)>::empty(),
            r@.values == Seq::<Option<TensorModel<A>>>::empty(),
            r@.derivs == Seq::<Option<TensorModel<A>>>::empty(),
            r@.names == Map::<Seq<char>, usize>::empty(),
    {
        let r = Graph { graph: store_new(), values: Vec::new(), derivs: Vec::new(), namespace: Vec::new() };
        assert(r@.values =~= Seq::empty());
        assert(r@.derivs =~= Seq::empty());
        r
    }

    /// The model of a consistent graph is well formed.
    pub proof fn lemma_well_formed(&self)
        requires
            self.wf(),
        ensures
            self@.well_formed(),
    {
    }

    /// Number of nodes.
    pub fn node_count(&self) -> (r: usize)
        requires
            self.wf(),
        ensures
            r == self@.kinds.len(),
    {
        self.values.len()
    }

    /// Appends a node; the caller connects its operands.
    fn push_node(&mut self, kind: Property, value: Option<Tensor<A>>) -> (r: usize)
        requires
            old(self).wf(),
            old(self)@.kinds.len() < MAX_NODES,
            kind is Constant ==> value is Some,
            kind is Constant || kind is Variable,
        ensures
            final(self).wf(),
            r == old(self)@.kinds.len(),
            final(self)@ == old(self)@.push_node(kind, option_model(value)),
            final(self).namespace@ == old(self).namespace@,
    {
        let ghost m = self@;
        let r = store_add_node(&mut self.graph, kind);
        self.values.push(value);
        self.derivs.push(None);
        proof {
            assert(self@.values =~= m.values.push(option_model(value)));
            assert(self@.derivs =~= m.derivs.push(None));
            assert(self@ == m.push_node(kind, option_model(value)));
            lemma_incoming_none(m.edges, r as int);
            assert forall|n: int| 0 <= n < self@.kinds.len() implies #[trigger] self@.node_ok(n) by {
                if n < m.kinds.len() {
                    assert(m.node_ok(n));
                }
            }
        }
        r
    }

    /// Appends an operator node and connects its operands in order.
    fn push_op(&mut self, kind: Property, operands: &[usize]) -> (r: usize)
        requires
            old(self).wf(),
            old(self)@.kinds.len() < MAX_NODES,
            operands@.len() == 1 || operands@.len() == 2,
            kind is Unary ==> operands@.len() == 1,
            kind is Binary ==> operands@.len() == 2,
            kind is Unary || kind is Binary,
            forall|i: int| 0 <= i < operands@.len() ==> operands@[i] < old(self)@.kinds.len(),
        ensures
            final(self).wf(),
            r == old(self)@.kinds.len(),
            operands@.len() == 1 ==> final(self)@ == old(self)@.push_node(kind, None).push_edge(
                operands@[0],
                r,
            ),
            operands@.len() == 2 ==> final(self)@ == old(self)@.push_node(kind, None).push_edge(
                operands@[0],
                r,
            ).push_edge(operands@[1], r),
    {
        let ghost m = self@;
        let r = store_add_node(&mut self.graph, kind);
        self.values.push(None);
        self.derivs.push(None);
        let ghost m1 = m.push_node(kind, None);
        proof {
            assert(self@.values =~= m.values.push(None));
            assert(self@.derivs =~= m.derivs.push(None));
            assert(self@ == m1);
            lemma_incoming_none(m.edges, r as int);
        }
        store_add_edge(&mut self.graph, operands[0], r);
        let ghost m2 = m1.push_edge(operands@[0], r);
        assert(self@ == m2);
        proof {
            lemma_incoming_push(m.edges, (operands@[0], r), r as int);
        }
        if operands.len() == 2 {
            store_add_edge(&mut self.graph, operands[1], r);
            proof {
                lemma_incoming_push(m2.edges, (operands@[1], r), r as int);
            }
        }
        proof {
            let f = self@;
            assert forall|n: int| 0 <= n < f.kinds.len() implies #[trigger] f.node_ok(n) by {
                if n < m.kinds.len() {
                    assert(m.node_ok(n));
                    lemma_incoming_push(m.edges, (operands@[0], r), n);
                    if operands.len() == 2 {
                        lemma_incoming_push(m2.edges, (operands@[1], r), n);
                    }
                }
            }
            assert forall|e: int| 0 <= e < f.edges.len() implies (#[trigger] f.edges[e]).1
                < f.kinds.len() by {
                if e < m.edges.len() {
                    assert(f.edges[e] == m.edges[e]);
                }
            }
        }
        r
    }

    fn unary(&mut self, op: Unary, arg: NodeIndex) -> (r: NodeIndex)
        requires
            old(self).wf(),
            old(self)@.kinds.len() < MAX_NODES,
            arg.0 < old(self)@.kinds.len(),
        ensures
            final(self).wf(),
            r.0 == old(self)@.kinds.len(),
            final(self)@ == old(self)@.push_unary(op, arg.0),
    {
        let operands = [arg.0];
        NodeIndex(self.push_op(Property::Unary(op), operands.as_slice()))
    }

    fn binary(&mut self, op: Binary, lhs: NodeIndex, rhs: NodeIndex) -> (r: NodeIndex)
        requires
            old(self).wf(),
            old(self)@.kinds.len() < MAX_NODES,
            lhs.0 < old(self)@.kinds.len(),
            rhs.0 < old(self)@.kinds.len(),
        ensures
            final(self).wf(),
            r.0 == old(self)@.kinds.len(),
            final(self)@ == old(self)@.push_binary(op, lhs.0, rhs.0),
    {
        let operands = [lhs.0, rhs.0];
        NodeIndex(self.push_op(Property::Binary(op), operands.as_slice()))
    }

    /// A constant node holding `value`.
    pub fn constant(&mut self, value: Tensor<A>) -> (r: NodeIndex)
        requires
            old(self).wf(),
            old(self)@.kinds.len() < MAX_NODES,
        ensures
            final(self).wf(),
            r.0 == old(self)@.kinds.len(),
            final(self)@ == old(self)@.push_node(Property::Constant, Some(value@)),
    {
        NodeIndex(self.push_node(Property::Constant, Some(value)))
    }

    /// A constant node holding the rank-0 tensor `value`.
    pub fn constant_scalar(&mut self, value: A) -> (r: NodeIndex)
        requires
            old(self).wf(),
            old(self)@.kinds.len() < MAX_NODES,
        ensures
            final(self).wf(),
            r.0 == old(self)@.kinds.len(),
            final(self)@ == old(self)@.push_node(
                Property::Constant,
                Some(TensorModel::scalar(value)),
            ),
    {
        self.constant(Tensor::scalar(value))
    }

    /// A constant node holding the rank-1 tensor of `value`.
    pub fn constant_vector(&mut self, value: &[A]) -> (r: NodeIndex)
        requires
            old(self).wf(),
            old(self)@.kinds.len() < MAX_NODES,
        ensures
            final(self).wf(),
            r.0 == old(self)@.kinds.len(),
            final(self)@ == old(self)@.push_node(
                Property::Constant,
                Some(TensorModel { shape: seq![value@.len() as usize], elems: value@ }),
            ),
    {
        let t = Tensor::vector(value);
        self.constant(t)
    }

    /// Position of `name` in the namespace.
    fn find_name(&self, name: &String) -> (r: Option<usize>)
        requires
            self.wf(),
        ensures
            r matches Some(i) ==> i < self.namespace@.len() && self.namespace@[i as int].0@ == name@,
            r is None ==> forall|i: int|
                0 <= i < self.namespace@.len() ==> (#[trigger] self.namespace@[i]).0@ != name@,
    {
        let mut i: usize = 0;
        while i < self.namespace.len()
            invariant
                i <= self.namespace@.len(),
                forall|j: int| 0 <= j < i ==> (#[trigger] self.namespace@[j]).0@ != name@,
            decreases self.namespace@.len() - i,
        {
            if self.namespace[i].0 == *name {
                return Some(i);
            }
            i = i + 1;
        }
        None
    }

    /// A variable node without a value, bound to `name`; fails when the name
    /// is already bound.
    pub fn empty_variable(&mut self, name: &str) -> (r: Result<NodeIndex, Error>)
        requires
            old(self).wf(),
            old(self)@.kinds.len() < MAX_NODES,
        ensures
            final(self).wf(),
            old(self)@.names.contains_key(name@) ==> {
                &&& r matches Err(Error::DuplicatedName { name: n }) && n@ == name@
                &&& final(self)@ == old(self)@
            },
            !old(self)@.names.contains_key(name@) ==> {
                &&& r matches Ok(v) && v.0 == old(self)@.kinds.len()
                &&& final(self)@ == GraphModel {
                    names: old(self)@.names.insert(name@, old(self)@.kinds.len() as usize),
                    ..old(self)@.push_node(Property::Variable, None)
                }
            },
    {
        let key = name.to_owned();
        proof {
            lemma_names_of(self.namespace@, name@);
        }
        match self.find_name(&key) {
            Some(_) => Err(Error::DuplicatedName { name: key }),
            None => {
                let ghost m = self@;
                let id = self.push_node(Property::Variable, None);
                let ghost ns = self.namespace@;
                let ghost m1 = self@;
                self.namespace.push((key, NodeIndex(id)));
                proof {
                    assert forall|n: int| 0 <= n < self@.kinds.len() implies #[trigger] self@.node_ok(n) by {
                        assert(m1.node_ok(n));
                    }
                    assert(self.namespace@.drop_last() =~= ns);
                    assert forall|i: int, j: int|
                        0 <= i < self.namespace@.len() && 0 <= j < self.namespace@.len() && i
                            != j implies (#[trigger] self.namespace@[i]).0@
                        != (#[trigger] self.namespace@[j]).0@ by {
                        if i < ns.len() && j < ns.len() {
                            assert(self.namespace@[i] == ns[i]);
                            assert(self.namespace@[j] == ns[j]);
                        } else if i < ns.len() {
                            assert(self.namespace@[i] == ns[i]);
                        } else {
                            assert(self.namespace@[j] == ns[j]);
                        }
                    }
                    assert(self@.names == m.names.insert(name@, id));
                    assert forall|k: Seq<char>| #[trigger] self@.names.contains_key(k) implies self@.names[k]
                        < self@.kinds.len() by {
                        if k != name@ {
                            assert(m.names.contains_key(k));
                        }
                    }
                }
                Ok(NodeIndex(id))
            },
        }
    }

    /// A variable node bound to `name` and holding `value`; fails when the
    /// name is already bound.
    pub fn variable(&mut self, name: &str, value: Tensor<A>) -> (r: Result<NodeIndex, Error>)
        requires
            old(self).wf(),
            old(self)@.kinds.len() < MAX_NODES,
        ensures
            final(self).wf(),
            old(self)@.names.contains_key(name@) ==> {
                &&& r matches Err(Error::DuplicatedName { name: n }) && n@ == name@
                &&& final(self)@ == old(self)@
            },
            !old(self)@.names.contains_key(name@) ==> {
                &&& r matches Ok(v) && v.0 == old(self)@.kinds.len()
                &&& final(self)@ == GraphModel {
                    names: old(self)@.names.insert(name@, old(self)@.kinds.len() as usize),
                    ..old(self)@.push_node(Property::Variable, Some(value@))
                }
            },
    {
        let ghost m0 = self@;
        let var = self.empty_variable(name)?;
        let ghost m = self@;
        self.values.set(var.0, Some(value));
        proof {
            assert(self@.values =~= m.values.update(var.0 as int, Some(value@)));
            assert(self@.values =~= m0.values.push(Some(value@)));
            assert(self@.names == m.names);
            assert forall|n: int| 0 <= n < self@.kinds.len() implies #[trigger] self@.node_ok(n) by {
                assert(m.node_ok(n));
            }
        }
        Ok(var)
    }

    /// A rank-0 variable; see [`Graph::variable`].
    pub fn scalar(&mut self, name: &str, value: A) -> (r: Result<NodeIndex, Error>)
        requires
            old(self).wf(),
            old(self)@.kinds.len() < MAX_NODES,
        ensures
            final(self).wf(),
            old(self)@.names.contains_key(name@) ==> {
                &&& r matches Err(Error::DuplicatedName { name: n }) && n@ == name@
                &&& final(self)@ == old(self)@
            },
            !old(self)@.names.contains_key(name@) ==> {
                &&& r matches Ok(v) && v.0 == old(self)@.kinds.len()
                &&& final(self)@ == GraphModel {
                    names: old(self)@.names.insert(name@, old(self)@.kinds.len() as usize),
                    ..old(self)@.push_node(Property::Variable, Some(TensorModel::scalar(value)))
                }
            },
    {
        self.variable(name, Tensor::scalar(value))
    }

    /// A rank-1 variable; see [`Graph::variable`].
    pub fn vector(&mut self, name: &str, value: &[A]) -> (r: Result<NodeIndex, Error>)
        requires
            old(self).wf(),
            old(self)@.kinds.len() < MAX_NODES,
        ensures
            final(self).wf(),
            old(self)@.names.contains_key(name@) ==> {
                &&& r matches Err(Error::DuplicatedName { name: n }) && n@ == name@
                &&& final(self)@ == old(self)@
            },
            !old(self)@.names.contains_key(name@) ==> {
                &&& r matches Ok(v) && v.0 == old(self)@.kinds.len()
                &&& final(self)@ == GraphModel {
                    names: old(self)@.names.insert(name@, old(self)@.kinds.len() as usize),
                    ..old(self)@.push_node(
                        Property::Variable,
                        Some(TensorModel { shape: seq![value@.len() as usize], elems: value@ }),
                    )
                }
            },
    {
        self.variable(name, Tensor::vector(value))
    }

    /// Node bound to `name`.
    pub fn get_index(&self, name: &str) -> (r: Result<NodeIndex, Error>)
        requires
            self.wf(),
        ensures
            self@.names.contains_key(name@) ==> r == Ok::<NodeIndex, Error>(
                NodeIndex(self@.names[name@]),
            ),
            !self@.names.contains_key(name@) ==> (r matches Err(Error::UndefinedName { name: n })
                && n@ == name@),
    {
        let key = name.to_owned();
        proof {
            lemma_names_of(self.namespace@, name@);
        }
        match self.find_name(&key) {
            Some(i) => Ok(self.namespace[i].1),
            None => Err(Error::UndefinedName { name: key }),
        }
    }

    /// Whether `node` is a variable.
    pub fn is_variable(&self, node: NodeIndex) -> (r: bool)
        requires
            self.wf(),
            node.0 < self@.kinds.len(),
        ensures
            r == (self@.kinds[node.0 as int] is Variable),
    {
        match store_node(&self.graph, node.0) {
            Property::Variable => true,
            _ => false,
        }
    }

    /// Gives a variable a new value; fails, changing nothing, on any other
    /// kind of node.
    pub fn set_value(&mut self, node: NodeIndex, value: Tensor<A>) -> (r: Result<(), Error>)
        requires
            old(self).wf(),
            node.0 < old(self)@.kinds.len(),
        ensures
            final(self).wf(),
            old(self)@.kinds[node.0 as int] is Variable ==> {
                &&& r is Ok
                &&& final(self)@ == old(self)@.with_value(node.0 as int, value@)
            },
            !(old(self)@.kinds[node.0 as int] is Variable) ==> {
                &&& r == Err::<(), Error>(Error::NodeTypeError { index: node.0 })
                &&& final(self)@ == old(self)@
            },
    {
        if self.is_variable(node) {
            let ghost m = self@;
            self.values.set(node.0, Some(value));
            proof {
                assert(self@.values =~= m.values.update(node.0 as int, Some(value@)));
                assert(self@.names == m.names);
                assert forall|n: int| 0 <= n < self@.kinds.len() implies #[trigger] self@.node_ok(n) by {
                    assert(m.node_ok(n));
                }
            }
            Ok(())
        } else {
            Err(Error::NodeTypeError { index: node.0 })
        }
    }

    /// Cached or assigned value of `node`.
    pub fn get_value(&self, node: NodeIndex) -> (r: Result<Tensor<A>, Error>)
        requires
            self.wf(),
            node.0 < self@.kinds.len(),
        ensures
            result_model(r) == match self@.values[node.0 as int] {
                Some(v) => Ok(v),
                None => Err(Error::ValueUninitialized { index: node.0 }),
            },
    {
        match &self.values[node.0] {
            Some(v) => Ok(v.clone()),
            None => Err(Error::ValueUninitialized { index: node.0 }),
        }
    }

    /// Gradient of `node` from the last differentiation pass.
    pub fn get_deriv(&self, node: NodeIndex) -> (r: Result<Tensor<A>, Error>)
        requires
            self.wf(),
            node.0 < self@.kinds.len(),
        ensures
            result_model(r) == match self@.derivs[node.0 as int] {
                Some(v) => Ok(v),
                None => Err(Error::DerivUninitialized { index: node.0 }),
            },
    {
        match &self.derivs[node.0] {
            Some(v) => Ok(v.clone()),
            None => Err(Error::DerivUninitialized { index: node.0 }),
        }
    }

    /// A node for `lhs + rhs`.
    pub fn add(&mut self, lhs: NodeIndex, rhs: NodeIndex) -> (r: NodeIndex)
        requires
            old(self).wf(),
            old(self)@.kinds.len() < MAX_NODES,
            lhs.0 < old(self)@.kinds.len(),
            rhs.0 < old(self)@.kinds.len(),
        ensures
            final(self).wf(),
            r.0 == old(self)@.kinds.len(),
            final(self)@ == old(self)@.push_binary(Binary::Add, lhs.0, rhs.0),
    {
        self.binary(Binary::Add, lhs, rhs)
    }

    /// A node for `lhs * rhs`, elementwise.
    pub fn mul(&mut self, lhs: NodeIndex, rhs: NodeIndex) -> (r: NodeIndex)
        requires
            old(self).wf(),
            old(self)@.kinds.len() < MAX_NODES,
            lhs.0 < old(self)@.kinds.len(),
            rhs.0 < old(self)@.kinds.len(),
        ensures
            final(self).wf(),
            r.0 == old(self)@.kinds.len(),
            final(self)@ == old(self)@.push_binary(Binary::Mul, lhs.0, rhs.0),
    {
        self.binary(Binary::Mul, lhs, rhs)
    }

    /// A node for `lhs / rhs`, elementwise.
    pub fn div(&mut self, lhs: NodeIndex, rhs: NodeIndex) -> (r: NodeIndex)
        requires
            old(self).wf(),
            old(self)@.kinds.len() < MAX_NODES,
            lhs.0 < old(self)@.kinds.len(),
            rhs.0 < old(self)@.kinds.len(),
        ensures
            final(self).wf(),
            r.0 == old(self)@.kinds.len(),
            final(self)@ == old(self)@.push_binary(Binary::Div, lhs.0, rhs.0),
    {
        self.binary(Binary::Div, lhs, rhs)
    }

    /// A node for the dot product of `lhs` and `rhs`.
    pub fn dot(&mut self, lhs: NodeIndex, rhs: NodeIndex) -> (r: NodeIndex)
        requires
            old(self).wf(),
            old(self)@.kinds.len() < MAX_NODES,
            lhs.0 < old(self)@.kinds.len(),
            rhs.0 < old(self)@.kinds.len(),
        ensures
            final(self).wf(),
            r.0 == old(self)@.kinds.len(),
            final(self)@ == old(self)@.push_binary(Binary::Dot, lhs.0, rhs.0),
    {
        self.binary(Binary::Dot, lhs, rhs)
    }

    /// A node for `-arg`, elementwise.
    pub fn neg(&mut self, arg: NodeIndex) -> (r: NodeIndex)
        requires
            old(self).wf(),
            old(self)@.kinds.len() < MAX_NODES,
            arg.0 < old(self)@.kinds.len(),
        ensures
            final(self).wf(),
            r.0 == old(self)@.kinds.len(),
            final(self)@ == old(self)@.push_unary(Unary::Neg, arg.0),
    {
        self.unary(Unary::Neg, arg)
    }

    /// A node for `conj(arg) * arg`, elementwise.
    pub fn square(&mut self, arg: NodeIndex) -> (r: NodeIndex)
        requires
            old(self).wf(),
            old(self)@.kinds.len() < MAX_NODES,
            arg.0 < old(self)@.kinds.len(),
        ensures
            final(self).wf(),
            r.0 == old(self)@.kinds.len(),
            final(self)@ == old(self)@.push_unary(Unary::Square, arg.0),
    {
        self.unary(Unary::Square, arg)
    }

    /// A node for `exp(arg)`, elementwise.
    pub fn exp(&mut self, arg: NodeIndex) -> (r: NodeIndex)
        requires
            old(self).wf(),
            old(self)@.kinds.len() < MAX_NODES,
            arg.0 < old(self)@.kinds.len(),
        ensures
            final(self).wf(),
            r.0 == old(self)@.kinds.len(),
            final(self)@ == old(self)@.push_unary(Unary::Exp, arg.0),
    {
        self.unary(Unary::Exp, arg)
    }

    /// A node for `ln(arg)`, elementwise.
    pub fn ln(&mut self, arg: NodeIndex) -> (r: NodeIndex)
        requires
            old(self).wf(),
            old(self)@.kinds.len() < MAX_NODES,
            arg.0 < old(self)@.kinds.len(),
        ensures
            final(self).wf(),
            r.0 == old(self)@.kinds.len(),
            final(self)@ == old(self)@.push_unary(Unary::Ln, arg.0),
    {
        self.unary(Unary::Ln, arg)
    }

    /// A node for `sin(arg)`, elementwise.
    pub fn sin(&mut self, arg: NodeIndex) -> (r: NodeIndex)
        requires
            old(self).wf(),
            old(self)@.kinds.len() < MAX_NODES,
            arg.0 < old(self)@.kinds.len(),
        ensures
            final(self).wf(),
            r.0 == old(self)@.kinds.len(),
            final(self)@ == old(self)@.push_unary(Unary::Sin, arg.0),
    {
        self.unary(Unary::Sin, arg)
    }

    /// A node for `cos(arg)`, elementwise.
    pub fn cos(&mut self, arg: NodeIndex) -> (r: NodeIndex)
        requires
            old(self).wf(),
            old(self)@.kinds.len() < MAX_NODES,
            arg.0 < old(self)@.kinds.len(),
        ensures
            final(self).wf(),
            r.0 == old(self)@.kinds.len(),
            final(self)@ == old(self)@.push_unary(Unary::Cos, arg.0),
    {
        self.unary(Unary::Cos, arg)
    }

    /// A node for `tan(arg)`, elementwise.
    pub fn tan(&mut self, arg: NodeIndex) -> (r: NodeIndex)
        requires
            old(self).wf(),
            old(self)@.kinds.len() < MAX_NODES,
            arg.0 < old(self)@.kinds.len(),
        ensures
            final(self).wf(),
            r.0 == old(self)@.kinds.len(),
            final(self)@ == old(self)@.push_unary(Unary::Tan, arg.0),
    {
        self.unary(Unary::Tan, arg)
    }

    /// A node for `sinh(arg)`, elementwise.
    pub fn sinh(&mut self, arg: NodeIndex) -> (r: NodeIndex)
        requires
            old(self).wf(),
            old(self)@.kinds.len() < MAX_NODES,
            arg.0 < old(self)@.kinds.len(),
        ensures
            final(self).wf(),
            r.0 == old(self)@.kinds.len(),
            final(self)@ == old(self)@.push_unary(Unary::Sinh, arg.0),
    {
        self.unary(Unary::Sinh, arg)
    }

    /// A node for `cosh(arg)`, elementwise.
    pub fn cosh(&mut self, arg: NodeIndex) -> (r: NodeIndex)
        requires
            old(self).wf(),
            old(self)@.kinds.len() < MAX_NODES,
            arg.0 < old(self)@.kinds.len(),
        ensures
            final(self).wf(),
            r.0 == old(self)@.kinds.len(),
            final(self)@ == old(self)@.push_unary(Unary::Cosh, arg.0),
    {
        self.unary(Unary::Cosh, arg)
    }

    /// A node for `tanh(arg)`, elementwise.
    pub fn tanh(&mut self, arg: NodeIndex) -> (r: NodeIndex)
        requires
            old(self).wf(),
            old(self)@.kinds.len() < MAX_NODES,
            arg.0 < old(self)@.kinds.len(),
        ensures
            final(self).wf(),
            r.0 == old(self)@.kinds.len(),
            final(self)@ == old(self)@.push_unary(Unary::Tanh, arg.0),
    {
        self.unary(Unary::Tanh, arg)
    }

    /// A node for `lhs - rhs`, built as `lhs + (-rhs)`: it adds a negation
    /// node and then the sum node.
    pub fn sub(&mut self, lhs: NodeIndex, rhs: NodeIndex) -> (r: NodeIndex)
        requires
            old(self).wf(),
            old(self)@.kinds.len() + 1 < MAX_NODES,
            lhs.0 < old(self)@.kinds.len(),
            rhs.0 < old(self)@.kinds.len(),
        ensures
            final(self).wf(),
            r.0 == old(self)@.kinds.len() + 1,
            final(self)@ == old(self)@.push_unary(Unary::Neg, rhs.0).push_binary(
                Binary::Add,
                lhs.0,
                old(self)@.kinds.len() as usize,
            ),
    {
        let m_rhs = self.neg(rhs);
        self.add(lhs, m_rhs)
    }

    /// Value of `node`, computed from its operands when it holds none; every
    /// value computed is cached in its node.
    pub fn eval_value(&mut self, node: NodeIndex) -> (r: Result<Tensor<A>, Error>)
        requires
            old(self).wf(),
            node.0 < old(self)@.kinds.len(),
        ensures
            final(self).wf(),
            final(self)@ == old(self)@.run_eval(node.0 as nat).0,
            result_model(r) == old(self)@.run_eval(node.0 as nat).1,
            final(self)@.fills(old(self)@),
            r matches Ok(v) ==> final(self)@.values[node.0 as int] == Some(v@),
        decreases node.0,
    {
        let n = node.0;
        let ghost m = self@;
        proof {
            assert(m.node_ok(n as int));
            lemma_run_eval_fills(m, n as nat);
        }
        if let Some(v) = &self.values[n] {
            return Ok(v.clone());
        }
        match store_node(&self.graph, n) {
            Property::Unary(op) => {
                let args = store_incoming(&self.graph, n);
                let x = self.eval_value(NodeIndex(args[0]))?;
                let value = op.eval_value(&x);
                let ghost m1 = self@;
                proof {
                    lemma_run_eval_fills(m, args@[0] as nat);
                }
                self.values.set(n, Some(value.clone()));
                proof {
                    assert(self@.values =~= m1.values.update(n as int, Some(value@)));
                    assert(self@.names == m1.names);
                    assert forall|i: int| 0 <= i < self@.kinds.len() implies #[trigger] self@.node_ok(
                        i,
                    ) by {
                        assert(m1.node_ok(i));
                    }
                }
                Ok(value)
            },
            Property::Binary(op) => {
                let args = store_incoming(&self.graph, n);
                let lhs = self.eval_value(NodeIndex(args[1]))?;
                proof {
                    lemma_run_eval_fills(m, args@[1] as nat);
                }
                let rhs = self.eval_value(NodeIndex(args[0]))?;
                let value = op.eval_value(&lhs, &rhs)?;
                let ghost m2 = self@;
                proof {
                    lemma_run_eval_fills(m, args@[1] as nat);
                    lemma_run_eval_fills(m.run_eval(args@[1] as nat).0, args@[0] as nat);
                }
                self.values.set(n, Some(value.clone()));
                proof {
                    assert(self@.values =~= m2.values.update(n as int, Some(value@)));
                    assert(self@.names == m2.names);
                    assert forall|i: int| 0 <= i < self@.kinds.len() implies #[trigger] self@.node_ok(
                        i,
                    ) by {
                        assert(m2.node_ok(i));
                    }
                }
                Ok(value)
            },
            _ => Err(Error::ValueUninitialized { index: n }),
        }
    }

    fn deriv_recur(&mut self, node: usize, der: Tensor<A>) -> (r: Result<(), Error>)
        requires
            old(self).wf(),
            node < old(self)@.kinds.len(),
        ensures
            final(self).wf(),
            final(self)@ == old(self)@.with_derivs(
                old(self)@.backprop(old(self)@.derivs, node as nat, der@).0,
            ),
            r == old(self)@.backprop(old(self)@.derivs, node as nat, der@).1,
        decreases node,
    {
        let ghost m = self@;
        proof {
            assert(m.node_ok(node as int));
        }
        let acc = match &self.derivs[node] {
            Some(last) => zip_add(last, &der)?,
            None => der.clone(),
        };
        self.derivs.set(node, Some(acc));
        let ghost d1 = m.derivs.update(node as int, Some(acc@));
        let ghost m1 = self@;
        proof {
            assert(self@.derivs =~= d1);
            assert(self@.values =~= m.values);
            assert(self@.names == m.names);
            assert(m1 == m.with_derivs(d1));
            assert forall|i: int| 0 <= i < self@.kinds.len() implies #[trigger] self@.node_ok(i) by {
                assert(m.node_ok(i));
            }
        }
        match store_node(&self.graph, node) {
            Property::Unary(op) => {
                let args = store_incoming(&self.graph, node);
                let x = self.get_value(NodeIndex(args[0]))?;
                let cd = op.eval_deriv(&x, &der)?;
                proof {
                    lemma_backprop_congruent(m1, m, d1, args@[0] as nat, cd@);
                }
                self.deriv_recur(args[0], cd)
            },
            Property::Binary(op) => {
                let args = store_incoming(&self.graph, node);
                let lv = self.get_value(NodeIndex(args[1]))?;
                let rv = self.get_value(NodeIndex(args[0]))?;
                let (ld, rd) = op.eval_deriv(&lv, &rv, &der)?;
                proof {
                    lemma_backprop_congruent(m1, m, d1, args@[1] as nat, ld@);
                }
                let first = self.deriv_recur(args[1], ld);
                let ghost d2 = m.backprop(d1, args@[1] as nat, ld@).0;
                let ghost m2 = self@;
                match first {
                    Ok(_) => {},
                    Err(e) => {
                        return Err(e);
                    },
                }
                proof {
                    assert(m2 == m.with_derivs(d2));
                    lemma_backprop_congruent(m2, m, d2, args@[0] as nat, rd@);
                }
                self.deriv_recur(args[0], rd)
            },
            _ => Ok(()),
        }
    }

    /// Differentiates `node`: clears every gradient, then runs the backward
    /// pass from `node` with a seed of ones shaped like its value. Afterwards
    /// each node that the pass reached holds the derivative of `node` with
    /// respect to it.
    pub fn eval_deriv(&mut self, node: NodeIndex) -> (r: Result<(), Error>)
        requires
            old(self).wf(),
            node.0 < old(self)@.kinds.len(),
            old(self)@.values[node.0 as int] is Some,
        ensures
            final(self).wf(),
            final(self)@ == old(self)@.with_derivs(old(self)@.run_deriv(node.0 as nat).0),
            r == old(self)@.run_deriv(node.0 as nat).1,
    {
        let ghost m = self@;
        let count = self.derivs.len();
        let mut cleared: Vec<Option<Tensor<A>>> = Vec::new();
        let mut i: usize = 0;
        while i < count
            invariant
                i <= count,
                cleared@.len() == i,
                forall|j: int| 0 <= j < i ==> (#[trigger] cleared@[j]) is None,
            decreases count - i,
        {
            cleared.push(None);
            i = i + 1;
        }
        self.derivs = cleared;
        let ghost cleared_model = Seq::new(m.kinds.len(), |i: int| None::<TensorModel<A>>);
        proof {
            assert(self@.derivs =~= cleared_model);
            assert(self@.values =~= m.values);
            assert(self@.names == m.names);
            assert forall|i: int| 0 <= i < self@.kinds.len() implies #[trigger] self@.node_ok(i) by {
                assert(m.node_ok(i));
            }
        }
        let seed = match &self.values[node.0] {
            Some(v) => v.ones_like(),
            None => {
                return Err(Error::ValueUninitialized { index: node.0 });
            },
        };
        proof {
            lemma_backprop_congruent(self@, m, cleared_model, node.0 as nat, seed@);
        }
        self.deriv_recur(node.0, seed)
    }

    /// Binds `name` to `node`, replacing any earlier binding, and returns the
    /// node it was bound to before.
    pub fn set_name(&mut self, node: NodeIndex, name: &str) -> (r: Option<NodeIndex>)
        requires
            old(self).wf(),
            node.0 < old(self)@.kinds.len(),
        ensures
            final(self).wf(),
            final(self)@ == (GraphModel { names: old(self)@.names.insert(name@, node.0), ..old(self)@ }),
            old(self)@.names.contains_key(name@) ==> r == Some(NodeIndex(old(self)@.names[name@])),
            !old(self)@.names.contains_key(name@) ==> (r is None),
    {
        let key = name.to_owned();
        let ghost m = self@;
        let ghost ns = self.namespace@;
        proof {
            lemma_names_of(ns, name@);
        }
        let r = match self.find_name(&key) {
            Some(i) => {
                let prev = self.namespace[i].1;
                self.namespace.set(i, (key, node));
                Some(prev)
            },
            None => {
                self.namespace.push((key, node));
                None
            },
        };
        proof {
            let ns2 = self.namespace@;
            assert forall|i: int, j: int|
                0 <= i < ns2.len() && 0 <= j < ns2.len() && i != j implies (#[trigger] ns2[i]).0@
                != (#[trigger] ns2[j]).0@ by {
                if i < ns.len() && ns2[i] == ns[i] && j < ns.len() && ns2[j] == ns[j] {
                } else if i < ns.len() && ns2[i] == ns[i] {
                    assert(ns2[j].0@ == name@);
                } else {
                    assert(ns2[i].0@ == name@);
                    if j < ns.len() {
                        assert(ns2[j] == ns[j]);
                    }
                }
            }
            assert forall|k: Seq<char>| true implies #[trigger] names_of(ns2).contains_key(k)
                == m.names.insert(name@, node.0).contains_key(k) && (names_of(ns2).contains_key(k)
                ==> names_of(ns2)[k] == m.names.insert(name@, node.0)[k]) by {
                lemma_names_of(ns, k);
                lemma_names_of(ns2, k);
                if k == name@ {
                    let i = if r is Some {
                        choose|i: int| 0 <= i < ns.len() && (#[trigger] ns[i]).0@ == k
                    } else {
                        ns.len() as int
                    };
                    assert(ns2[i].0@ == k);
                } else {
                    if names_of(ns2).contains_key(k) {
                        let i = choose|i: int| 0 <= i < ns2.len() && (#[trigger] ns2[i]).0@ == k;
                        assert(ns[i] == ns2[i]);
                    }
                    if m.names.contains_key(k) {
                        let i = choose|i: int| 0 <= i < ns.len() && (#[trigger] ns[i]).0@ == k;
                        assert(ns[i] == ns2[i]);
                    }
                }
            }
            assert(self@.names =~= m.names.insert(name@, node.0));
            assert forall|n: int| 0 <= n < self@.kinds.len() implies #[trigger] self@.node_ok(n) by {
                assert(m.node_ok(n));
            }
        }
        r
    }
}


} // verus!
