//! Shapes of n-dimensional arrays and the row-major mapping between
//! multi-dimensional and flat indices.
use vstd::prelude::*;

use crate::error::{QuantumError, QuantumResult};

verus! {

/// The product of the dimensions.
pub open spec fn product(dims: Seq<usize>) -> nat
    decreases dims.len(),
{
    if dims.len() == 0 {
        1
    } else {
        dims[0] as nat * product(dims.skip(1))
    }
}

/// The flat row-major position of multi-dimensional index `idx`.
pub open spec fn row_major(idx: Seq<usize>, dims: Seq<usize>) -> nat
    decreases idx.len(),
{
    if idx.len() == 0 {
        0
    } else {
        idx[0] as nat * product(dims.skip(1)) + row_major(idx.skip(1), dims.skip(1))
    }
}

/// Whether `idx` addresses an element of an array with dimensions `dims`.
pub open spec fn in_bounds(idx: Seq<usize>, dims: Seq<usize>) -> bool {
    idx.len() == dims.len() && forall|i: int| 0 <= i < idx.len() ==> idx[i] < dims[i]
}

/// Every trailing product of the dimensions fits in a machine word, so the
/// element count and every row-major stride can be computed.
pub open spec fn sizes_fit(dims: Seq<usize>) -> bool {
    forall|i: int| 0 <= i <= dims.len() ==> #[trigger] product(dims.skip(i)) <= usize::MAX
}

proof fn lemma_skip_skip(s: Seq<usize>, i: int)
    requires
        0 <= i < s.len(),
    ensures
        s.skip(i).skip(1) == s.skip(i + 1),
        s.skip(i)[0] == s[i],
        s.skip(i).len() == s.len() - i,
{
    assert(s.skip(i).skip(1) =~= s.skip(i + 1));
}

/// A position inside the bounds lies below the element count.
pub proof fn lemma_row_major_below(idx: Seq<usize>, dims: Seq<usize>)
    requires
        in_bounds(idx, dims),
    ensures
        row_major(idx, dims) < product(dims),
    decreases idx.len(),
{
    if idx.len() > 0 {
        lemma_row_major_below(idx.skip(1), dims.skip(1));
        let p = product(dims.skip(1));
        let r = row_major(idx.skip(1), dims.skip(1));
        assert(idx[0] as nat * p + r < dims[0] as nat * p) by (nonlinear_arith)
            requires
                r < p,
                idx[0] < dims[0],
        ;
    }
}

/// Distinct in-bounds indices have distinct row-major positions.
pub proof fn lemma_row_major_injective(a: Seq<usize>, b: Seq<usize>, dims: Seq<usize>)
    requires
        in_bounds(a, dims),
        in_bounds(b, dims),
        row_major(a, dims) == row_major(b, dims),
    ensures
        a == b,
    decreases a.len(),
{
    if a.len() > 0 {
        lemma_row_major_below(a.skip(1), dims.skip(1));
        lemma_row_major_below(b.skip(1), dims.skip(1));
        let p = product(dims.skip(1));
        let ra = row_major(a.skip(1), dims.skip(1));
        let rb = row_major(b.skip(1), dims.skip(1));
        let x = a[0] as nat;
        let y = b[0] as nat;
        assert(x == y && ra == rb) by (nonlinear_arith)
            requires
                x * p + ra == y * p + rb,
                ra < p,
                rb < p,
        {
            if x < y {
                assert(x * p + p <= y * p);
            } else if x > y {
                assert(y * p + p <= x * p);
            }
        }
        lemma_row_major_injective(a.skip(1), b.skip(1), dims.skip(1));
        assert(a =~= seq![a[0]] + a.skip(1));
        assert(b =~= seq![b[0]] + b.skip(1));
    } else {
        assert(a =~= b);
    }
}

/// A non-zero product has no zero dimension.
proof fn lemma_product_positive(dims: Seq<usize>, i: int)
    requires
        product(dims) > 0,
        0 <= i < dims.len(),
    ensures
        dims[i] > 0,
        product(dims.skip(i)) > 0,
    decreases dims.len(),
{
    let p = product(dims.skip(1));
    assert(p > 0 && dims[0] > 0) by (nonlinear_arith)
        requires
            dims[0] as nat * p > 0,
    ;
    if i > 0 {
        lemma_product_positive(dims.skip(1), i - 1);
        assert(dims.skip(1).skip(i - 1) =~= dims.skip(i));
    } else {
        assert(dims.skip(0) =~= dims);
    }
}

/// The shape of an n-dimensional array.
#[derive(Debug, Clone)]
pub struct Shape {
    dimensions: Vec<usize>,
}

impl View for Shape {
    type V = Seq<usize>;

    /// The dimensions, outermost first.
    closed spec fn view(&self) -> Seq<usize> {
        self.dimensions@
    }
}

impl Shape {
    /// A shape with the given dimensions.
    pub fn new(dimensions: Vec<usize>) -> (r: Shape)
        ensures
            r@ == dimensions@,
    {
        Shape { dimensions }
    }

    /// The number of dimensions.
    pub fn ndim(&self) -> (r: usize)
        ensures
            r == self@.len(),
    {
        self.dimensions.len()
    }

    /// The number of elements: the product of the dimensions.
    pub fn size(&self) -> (r: usize)
        requires
            sizes_fit(self@),
        ensures
            r == product(self@),
    {
        let n = self.dimensions.len();
        let mut acc: usize = 1;
        let mut i: usize = n;
        assert(self@.skip(n as int) =~= Seq::<usize>::empty());
        while i > 0
            invariant
                n == self@.len(),
                i <= n,
                sizes_fit(self@),
                acc == product(self@.skip(i as int)),
            decreases i,
        {
            proof {
                lemma_skip_skip(self@, i - 1);
                assert(product(self@.skip(i - 1)) <= usize::MAX);
            }
            acc = self.dimensions[i - 1] * acc;
            i = i - 1;
        }
        assert(self@.skip(0) =~= self@);
        acc
    }

    /// The dimensions, outermost first.
    pub fn dimensions(&self) -> (r: &[usize])
        ensures
            r@ == self@,
    {
        self.dimensions.as_slice()
    }

    /// A shape is valid when it has at least one dimension and no dimension
    /// is zero.
    pub fn is_valid(&self) -> (r: bool)
        ensures
            r == (self@.len() > 0 && forall|i: int| 0 <= i < self@.len() ==> self@[i] > 0),
    {
        if self.dimensions.len() == 0 {
            return false;
        }
        let mut i: usize = 0;
        while i < self.dimensions.len()
            invariant
                i <= self@.len(),
                forall|k: int| 0 <= k < i ==> self@[k] > 0,
            decreases self@.len() - i,
        {
            if self.dimensions[i] == 0 {
                return false;
            }
            i = i + 1;
        }
        true
    }

    /// Two shapes are compatible for broadcasting when they have the same
    /// number of dimensions and each pair of dimensions is equal or has a 1.
    pub fn is_compatible_with(&self, other: &Shape) -> (r: bool)
        ensures
            r == (self@.len() == other@.len() && forall|i: int|
                0 <= i < self@.len() ==> compatible_dims(self@[i], other@[i])),
    {
        if self.dimensions.len() != other.dimensions.len() {
            return false;
        }
        let mut i: usize = 0;
        while i < self.dimensions.len()
            invariant
                self@.len() == other@.len(),
                i <= self@.len(),
                forall|k: int| 0 <= k < i ==> compatible_dims(self@[k], other@[k]),
            decreases self@.len() - i,
        {
            let a = self.dimensions[i];
            let b = other.dimensions[i];
            if !(a == b || a == 1 || b == 1) {
                return false;
            }
            i = i + 1;
        }
        true
    }

    /// The shape that broadcasting `self` against `other` produces: the larger
    /// of each pair of dimensions.
    pub fn broadcast_with(&self, other: &Shape) -> (r: QuantumResult<Shape>)
        ensures
            r is Ok <==> (self@.len() == other@.len() && forall|i: int|
                0 <= i < self@.len() ==> compatible_dims(self@[i], other@[i])),
            r matches Ok(s) ==> s@.len() == self@.len() && forall|i: int|
                0 <= i < self@.len() ==> s@[i] == if self@[i] >= other@[i] {
                    self@[i]
                } else {
                    other@[i]
                },
            r matches Err(e) ==> e matches QuantumError::DimensionMismatch { expected, actual } && expected@
                == self@ && actual@ == other@,
    {
        if !self.is_compatible_with(other) {
            return Err(QuantumError::DimensionMismatch { expected: self.dimensions.clone(), actual: other.dimensions.clone() });
        }
        let mut dims: Vec<usize> = Vec::new();
        let mut i: usize = 0;
        while i < self.dimensions.len()
            invariant
                self@.len() == other@.len(),
                i <= self@.len(),
                dims@.len() == i,
                forall|k: int|
                    0 <= k < i ==> dims@[k] == if self@[k] >= other@[k] {
                        self@[k]
                    } else {
                        other@[k]
                    },
            decreases self@.len() - i,
        {
            let a = self.dimensions[i];
            let b = other.dimensions[i];
            dims.push(if a >= b { a } else { b });
            i = i + 1;
        }
        Ok(Shape::new(dims))
    }
}

/// Two dimensions broadcast together when equal or when either is 1.
pub open spec fn compatible_dims(a: usize, b: usize) -> bool {
    a == b || a == 1 || b == 1
}

/// The flat row-major position of `multi_idx` in an array of shape `shape`.
pub fn multi_to_flat_index(multi_idx: &Vec<usize>, shape: &Shape) -> (r: QuantumResult<usize>)
    requires
        sizes_fit(shape@),
    ensures
        r is Ok <==> in_bounds(multi_idx@, shape@),
        r matches Ok(f) ==> f == row_major(multi_idx@, shape@),
        r matches Err(e) ==> e matches QuantumError::DimensionMismatch { expected, actual } && if multi_idx@.len()
            != shape@.len() {
            expected@ == seq![shape@.len() as usize] && actual@ == seq![multi_idx@.len() as usize]
        } else {
            expected@ == shape@ && actual@ == multi_idx@
        },
{
    let n = shape.ndim();
    if multi_idx.len() != n {
        return Err(QuantumError::DimensionMismatch { expected: vec![n], actual: vec![multi_idx.len()] });
    }
    let dims = shape.dimensions();
    let ghost idx = multi_idx@;
    let ghost ds = shape@;
    let mut flat: usize = 0;
    let mut stride: usize = 1;
    let mut i: usize = n;
    assert(idx.skip(n as int) =~= Seq::<usize>::empty());
    assert(ds.skip(n as int) =~= Seq::<usize>::empty());
    while i > 0
        invariant
            n == idx.len(),
            n == ds.len(),
            dims@ == ds,
            idx == multi_idx@,
            ds == shape@,
            sizes_fit(ds),
            i <= n,
            stride == product(ds.skip(i as int)),
            flat == row_major(idx.skip(i as int), ds.skip(i as int)),
            forall|k: int| i <= k < n ==> idx[k] < ds[k],
        decreases i,
    {
        let k = i - 1;
        if multi_idx[k] >= dims[k] {
            return Err(QuantumError::DimensionMismatch { expected: shape.dimensions.clone(), actual: multi_idx.clone() });
        }
        proof {
            lemma_skip_skip(idx, k as int);
            lemma_skip_skip(ds, k as int);
            assert(in_bounds(idx.skip(k as int), ds.skip(k as int)));
            lemma_row_major_below(idx.skip(k as int), ds.skip(k as int));
            assert(product(ds.skip(k as int)) <= usize::MAX);
            assert(multi_idx[k as int] * stride <= dims[k as int] * stride) by (nonlinear_arith)
                requires
                    multi_idx[k as int] < dims[k as int],
            ;
        }
        flat = flat + multi_idx[k] * stride;
        stride = stride * dims[k];
        proof {
            assert(stride == dims[k as int] * product(ds.skip(i as int))) by (nonlinear_arith)
                requires
                    stride == product(ds.skip(i as int)) * dims[k as int],
            ;
        }
        i = k;
    }
    assert(idx.skip(0) =~= idx);
    assert(ds.skip(0) =~= ds);
    Ok(flat)
}

/// The multi-dimensional index of flat row-major position `flat_idx` in an
/// array of shape `shape`.
pub fn flat_to_multi_index(flat_idx: usize, shape: &Shape) -> (r: QuantumResult<Vec<usize>>)
    requires
        sizes_fit(shape@),
    ensures
        r is Ok <==> flat_idx < product(shape@),
        r matches Ok(v) ==> in_bounds(v@, shape@) && row_major(v@, shape@) == flat_idx,
        r matches Err(e) ==> e matches QuantumError::DimensionMismatch { expected, actual } && expected@ == seq![
            product(shape@) as usize,
        ] && actual@ == seq![flat_idx],
{
    let size = shape.size();
    if flat_idx >= size {
        return Err(QuantumError::DimensionMismatch { expected: vec![size], actual: vec![flat_idx] });
    }
    let n = shape.ndim();
    let dims = shape.dimensions();
    let ghost ds = shape@;
    let mut multi_idx: Vec<usize> = vec![0; n];
    let mut remaining: usize = flat_idx;
    let mut i: usize = n;
    assert(multi_idx@.skip(n as int) =~= Seq::<usize>::empty());
    assert(ds.skip(n as int) =~= Seq::<usize>::empty());
    assert(product(ds.skip(n as int)) == 1);
    assert(row_major(multi_idx@.skip(n as int), ds.skip(n as int)) == 0);
    assert(remaining * 1 == remaining) by (nonlinear_arith);
    while i > 0
        invariant
            n == ds.len(),
            n == multi_idx@.len(),
            dims@ == ds,
            ds == shape@,
            sizes_fit(ds),
            flat_idx < product(ds),
            i <= n,
            flat_idx == remaining * product(ds.skip(i as int)) + row_major(
                multi_idx@.skip(i as int),
                ds.skip(i as int),
            ),
            forall|k: int| i <= k < n ==> multi_idx@[k] < ds[k],
        decreases i,
    {
        let k = i - 1;
        proof {
            lemma_product_positive(ds, k as int);
        }
        let d = dims[k];
        let digit = remaining % d;
        let ghost before = multi_idx@;
        multi_idx[k] = digit;
        proof {
            lemma_skip_skip(multi_idx@, k as int);
            lemma_skip_skip(ds, k as int);
            assert(multi_idx@.skip(i as int) =~= before.skip(i as int));
            let p = product(ds.skip(i as int));
            let q = remaining / d;
            assert(remaining * p == q * (d * p) + digit * p) by (nonlinear_arith)
                requires
                    d > 0,
                    q == remaining / d,
                    digit == remaining % d,
            ;
        }
        remaining = remaining / d;
        i = k;
    }
    proof {
        assert(multi_idx@.skip(0) =~= multi_idx@);
        assert(ds.skip(0) =~= ds);
        lemma_row_major_below(multi_idx@, ds);
        let p = product(ds);
        let rm = row_major(multi_idx@, ds);
        assert(remaining == 0) by (nonlinear_arith)
            requires
                flat_idx == remaining * p + rm,
                flat_idx < p,
        ;
    }
    Ok(multi_idx)
}

} // verus!
