//! Immutable n-dimensional arrays of scalars.
//!
//! A tensor is a shape (one extent per dimension; rank 0 is a scalar) and its
//! elements in row-major order. Operations never change a tensor: they build
//! a new one. Two tensors combine elementwise when their shapes agree, or when
//! one of them has rank 0 and is broadcast over the other.

use crate::error::Error;
use crate::scalar::Field;
use vstd::prelude::*;

verus! {

/// Mathematical content of a tensor.
pub struct TensorModel<A> {
    pub shape: Seq<usize>,
    pub elems: Seq<A>,
}

/// Number of elements that a tensor of the given shape holds.
pub open spec fn size_of(shape: Seq<usize>) -> nat
    decreases shape.len(),
{
    if shape.len() == 0 {
        1
    } else {
        shape[0] as nat * size_of(shape.drop_first())
    }
}

impl<A> TensorModel<A> {
    /// The element count agrees with the shape, as it does for every
    /// tensor.
    pub open spec fn valid(self) -> bool {
        self.elems.len() == size_of(self.shape)
    }

    pub open spec fn rank(self) -> nat {
        self.shape.len()
    }

    /// Element `i` as seen by a broadcast: a rank-0 tensor offers its single
    /// element at every position.
    pub open spec fn at(self, i: int) -> A {
        if self.shape.len() == 0 {
            self.elems[0]
        } else {
            self.elems[i]
        }
    }

    pub open spec fn scalar(a: A) -> TensorModel<A> {
        TensorModel { shape: seq![], elems: seq![a] }
    }
}

/// Whether two tensors can be combined elementwise.
pub open spec fn fits<A>(a: TensorModel<A>, b: TensorModel<A>) -> bool {
    a.shape == b.shape || a.shape.len() == 0 || b.shape.len() == 0
}

/// Shape of an elementwise combination.
pub open spec fn joint_shape<A>(a: TensorModel<A>, b: TensorModel<A>) -> Seq<usize> {
    if a.shape.len() == 0 {
        b.shape
    } else {
        a.shape
    }
}

/// Element count of an elementwise combination.
pub open spec fn joint_len<A>(a: TensorModel<A>, b: TensorModel<A>) -> nat {
    if a.shape.len() == 0 {
        b.elems.len()
    } else {
        a.elems.len()
    }
}

/// The error of combining two tensors that do not fit.
pub open spec fn mismatch<A>(a: TensorModel<A>, b: TensorModel<A>) -> Error {
    Error::ShapeMismatch { lhs_len: a.elems.len() as usize, rhs_len: b.elems.len() as usize }
}

/// Elementwise combination of two tensors by `f`.
pub open spec fn zip_model<A>(a: TensorModel<A>, b: TensorModel<A>, f: spec_fn(A, A) -> A) -> Result<
    TensorModel<A>,
    Error,
> {
    if fits(a, b) {
        Ok(
            TensorModel {
                shape: joint_shape(a, b),
                elems: Seq::new(joint_len(a, b), |i: int| f(a.at(i), b.at(i))),
            },
        )
    } else {
        Err(mismatch(a, b))
    }
}

/// `f` applied to every element.
pub open spec fn map_model<A>(a: TensorModel<A>, f: spec_fn(A) -> A) -> TensorModel<A> {
    TensorModel { shape: a.shape, elems: Seq::new(a.elems.len(), |i: int| f(a.elems[i])) }
}

/// Sum of the elements from position `n` on.
pub open spec fn sum_from<A: Field>(s: Seq<A>, n: int) -> A
    decreases s.len() - n,
{
    if n >= s.len() {
        A::spec_zero()
    } else {
        s[n].spec_add(sum_from(s, n + 1))
    }
}

/// A tensor of the same shape with every element one.
pub open spec fn ones_model<A: Field>(a: TensorModel<A>) -> TensorModel<A> {
    TensorModel { shape: a.shape, elems: Seq::new(a.elems.len(), |i: int| A::spec_one()) }
}

/// N-dimensional array of scalars.
#[derive(Debug)]
pub struct Tensor<A> {
    shape: Vec<usize>,
    data: Vec<A>,
}

impl<A> View for Tensor<A> {
    type V = TensorModel<A>;

    closed spec fn view(&self) -> TensorModel<A> {
        TensorModel { shape: self.shape@, elems: self.data@ }
    }
}

impl<A> Tensor<A> {
    #[verifier::type_invariant]
    spec fn sized(self) -> bool {
        self.data@.len() == size_of(self.shape@)
    }

}

fn copy_vec<T: Copy>(v: &[T]) -> (r: Vec<T>)
    ensures
        r@ == v@,
{
    let mut r: Vec<T> = Vec::new();
    let mut i: usize = 0;
    while i < v.len()
        invariant
            i <= v@.len(),
            r@ == v@.subrange(0, i as int),
        decreases v@.len() - i,
    {
        r.push(v[i]);
        i = i + 1;
    }
    assert(r@ =~= v@);
    r
}

impl<A: Copy> Clone for Tensor<A> {
    /// A copy with the same shape and elements.
    fn clone(&self) -> (r: Self)
        ensures
            r@ == self@,
    {
        proof {
            use_type_invariant(self);
        }
        Tensor { shape: copy_vec(self.shape.as_slice()), data: copy_vec(self.data.as_slice()) }
    }
}

impl<A: Field> Tensor<A> {
    /// Rank-0 tensor holding `a`.
    pub fn scalar(a: A) -> (r: Tensor<A>)
        ensures
            r@ == TensorModel::scalar(a),
    {
        let mut data: Vec<A> = Vec::new();
        data.push(a);
        let r = Tensor { shape: Vec::new(), data };
        assert(r@.elems =~= seq![a]);
        assert(r@.shape =~= Seq::<usize>::empty());
        r
    }

    /// Rank-1 tensor holding the elements of `v`.
    pub fn vector(v: &[A]) -> (r: Tensor<A>)
        ensures
            r@.shape == seq![v@.len() as usize],
            r@.elems == v@,
    {
        let mut shape: Vec<usize> = Vec::new();
        shape.push(v.len());
        assert(size_of(shape@.drop_first()) == 1) by {
            assert(shape@.drop_first().len() == 0);
        }
        let r = Tensor { shape, data: copy_vec(v) };
        assert(r@.shape =~= seq![v@.len() as usize]);
        r
    }

    /// Number of dimensions.
    pub fn rank(&self) -> (r: usize)
        ensures
            r == self@.rank(),
    {
        self.shape.len()
    }

    /// Extent of each dimension.
    pub fn shape(&self) -> (r: Vec<usize>)
        ensures
            r@ == self@.shape,
    {
        copy_vec(self.shape.as_slice())
    }

    /// The elements, in row-major order.
    pub fn elements(&self) -> (r: Vec<A>)
        ensures
            r@ == self@.elems,
    {
        copy_vec(self.data.as_slice())
    }

    /// The single element of a rank-0 tensor.
    pub fn as_scalar(&self) -> (r: Result<A, Error>)
        ensures
            self@.rank() == 0 ==> r == Ok::<A, Error>(self@.elems[0]),
            self@.rank() != 0 ==> r == Err::<A, Error>(
                Error::TensorRankMismatch { actual: self@.rank() as usize, desired: 0 },
            ),
    {
        proof {
            use_type_invariant(self);
        }
        if self.shape.len() != 0 {
            return Err(Error::TensorRankMismatch { actual: self.shape.len(), desired: 0 });
        }
        Ok(self.data[0])
    }

    /// The elements of a rank-1 tensor.
    pub fn as_vector(&self) -> (r: Result<Vec<A>, Error>)
        ensures
            self@.rank() == 1 ==> (r matches Ok(v) && v@ == self@.elems),
            self@.rank() != 1 ==> r == Err::<Vec<A>, Error>(
                Error::TensorRankMismatch { actual: self@.rank() as usize, desired: 1 },
            ),
    {
        if self.shape.len() != 1 {
            return Err(Error::TensorRankMismatch { actual: self.shape.len(), desired: 1 });
        }
        Ok(copy_vec(self.data.as_slice()))
    }

    /// A tensor of the same shape whose elements are all one.
    pub fn ones_like(&self) -> (r: Tensor<A>)
        ensures
            r@ == ones_model(self@),
    {
        proof {
            use_type_invariant(self);
        }
        let one = A::one();
        let mut data: Vec<A> = Vec::new();
        let mut i: usize = 0;
        while i < self.data.len()
            invariant
                i <= self.data@.len(),
                data@.len() == i,
                forall|j: int| 0 <= j < i ==> data@[j] == A::spec_one(),
                one == A::spec_one(),
            decreases self.data@.len() - i,
        {
            data.push(one);
            i = i + 1;
        }
        let r = Tensor { shape: copy_vec(self.shape.as_slice()), data };
        assert(r@.elems =~= ones_model(self@).elems);
        r
    }

    /// Sum of all elements, as a rank-0 tensor.
    pub fn sum(&self) -> (r: Tensor<A>)
        ensures
            r@ == TensorModel::scalar(sum_from(self@.elems, 0)),
    {
        let mut acc = A::zero();
        let mut i: usize = self.data.len();
        while i > 0
            invariant
                i <= self.data@.len(),
                acc == sum_from(self.data@, i as int),
            decreases i,
        {
            i = i - 1;
            acc = self.data[i].add(acc);
        }
        Tensor::scalar(acc)
    }

    /// `f` applied to every element.
    pub fn map<F: Fn(A) -> A>(&self, f: F) -> (r: Tensor<A>)
        requires
            forall|x: A| f.requires((x,)),
        ensures
            r@.shape == self@.shape,
            r@.elems.len() == self@.elems.len(),
            forall|i: int| 0 <= i < self@.elems.len() ==> f.ensures((self@.elems[i],), r@.elems[i]),
    {
        proof {
            use_type_invariant(self);
        }
        let mut data: Vec<A> = Vec::new();
        let mut i: usize = 0;
        while i < self.data.len()
            invariant
                i <= self.data@.len(),
                data@.len() == i,
                forall|x: A| f.requires((x,)),
                forall|j: int| 0 <= j < i ==> f.ensures((self.data@[j],), data@[j]),
            decreases self.data@.len() - i,
        {
            let y = f(self.data[i]);
            data.push(y);
            i = i + 1;
        }
        Tensor { shape: copy_vec(self.shape.as_slice()), data }
    }

    /// Elementwise combination with `rhs` by `f`, broadcasting a rank-0
    /// operand; fails when the shapes do not fit.
    pub fn zip_with<F: Fn(A, A) -> A>(&self, rhs: &Tensor<A>, f: F) -> (r: Result<
        Tensor<A>,
        Error,
    >)
        requires
            forall|x: A, y: A| f.requires((x, y)),
        ensures
            match r {
                Ok(t) => {
                    &&& fits(self@, rhs@)
                    &&& t@.shape == joint_shape(self@, rhs@)
                    &&& t@.elems.len() == joint_len(self@, rhs@)
                    &&& forall|i: int|
                        0 <= i < joint_len(self@, rhs@) ==> f.ensures(
                            (self@.at(i), rhs@.at(i)),
                            #[trigger] t@.elems[i],
                        )
                },
                Err(e) => !fits(self@, rhs@) && e == mismatch(self@, rhs@),
            },
    {
        proof {
            use_type_invariant(self);
            use_type_invariant(rhs);
        }
        let lhs_scalar = self.shape.len() == 0;
        let rhs_scalar = rhs.shape.len() == 0;
        if !lhs_scalar && !rhs_scalar && !vec_eq(&self.shape, &rhs.shape) {
            return Err(Error::ShapeMismatch { lhs_len: self.data.len(), rhs_len: rhs.data.len() });
        }
        let n = if lhs_scalar {
            rhs.data.len()
        } else {
            self.data.len()
        };
        proof {
            if !lhs_scalar && !rhs_scalar {
                assert(self.shape@ == rhs.shape@);
            }
        }
        let mut data: Vec<A> = Vec::new();
        let mut i: usize = 0;
        while i < n
            invariant
                n == joint_len(self@, rhs@),
                lhs_scalar == (self@.shape.len() == 0),
                rhs_scalar == (rhs@.shape.len() == 0),
                lhs_scalar ==> self.data@.len() == 1,
                rhs_scalar ==> rhs.data@.len() == 1,
                !lhs_scalar ==> self.data@.len() == n,
                !rhs_scalar ==> rhs.data@.len() == n,
                i <= n,
                data@.len() == i,
                forall|x: A, y: A| f.requires((x, y)),
                forall|j: int| 0 <= j < i ==> f.ensures((self@.at(j), rhs@.at(j)), data@[j]),
            decreases n - i,
        {
            let x = if lhs_scalar {
                self.data[0]
            } else {
                self.data[i]
            };
            let y = if rhs_scalar {
                rhs.data[0]
            } else {
                rhs.data[i]
            };
            let z = f(x, y);
            data.push(z);
            i = i + 1;
        }
        let shape = if lhs_scalar {
            copy_vec(rhs.shape.as_slice())
        } else {
            copy_vec(self.shape.as_slice())
        };
        Ok(Tensor { shape, data })
    }
}

fn vec_eq(a: &Vec<usize>, b: &Vec<usize>) -> (r: bool)
    ensures
        r == (a@ == b@),
{
    if a.len() != b.len() {
        return false;
    }
    let mut i: usize = 0;
    while i < a.len()
        invariant
            a@.len() == b@.len(),
            i <= a@.len(),
            forall|j: int| 0 <= j < i ==> a@[j] == b@[j],
        decreases a@.len() - i,
    {
        if a[i] != b[i] {
            return false;
        }
        i = i + 1;
    }
    assert(a@ =~= b@);
    true
}

/// Conversion of plain values into tensors.
pub trait IntoTensor<A> {
    /// The tensor that the value converts to.
    spec fn tensor_model(self) -> TensorModel<A>;

    fn into_tensor(self) -> (r: Tensor<A>)
        ensures
            r@ == self.tensor_model(),
    ;
}

impl<A: Field> IntoTensor<A> for A {
    /// A rank-0 tensor.
    open spec fn tensor_model(self) -> TensorModel<A> {
        TensorModel::scalar(self)
    }

    fn into_tensor(self) -> (r: Tensor<A>) {
        Tensor::scalar(self)
    }
}

impl<'a, A: Field> IntoTensor<A> for &'a [A] {
    /// A rank-1 tensor.
    open spec fn tensor_model(self) -> TensorModel<A> {
        TensorModel { shape: seq![self@.len() as usize], elems: self@ }
    }

    fn into_tensor(self) -> (r: Tensor<A>) {
        Tensor::vector(self)
    }
}

/// Reading a tensor back as a plain value.
pub trait TensorCast<A> {
    /// The element of a rank-0 tensor, or the rank error.
    spec fn scalar_cast(&self) -> Result<A, Error>;

    fn as_scalar(&self) -> (r: Result<A, Error>)
        ensures
            r == self.scalar_cast(),
    ;
}

impl<A: Field> TensorCast<A> for Tensor<A> {
    open spec fn scalar_cast(&self) -> Result<A, Error> {
        if self@.rank() == 0 {
            Ok(self@.elems[0])
        } else {
            Err(Error::TensorRankMismatch { actual: self@.rank() as usize, desired: 0 })
        }
    }

    fn as_scalar(&self) -> (r: Result<A, Error>) {
        Tensor::as_scalar(self)
    }
}

} // verus!
