//! Dense n-dimensional arrays stored flat in row-major order.
use vstd::prelude::*;

use crate::element::ArrayElement;
use crate::error::{QuantumError, QuantumResult};
use vstd::set_lib::{lemma_int_range, lemma_subset_equality, set_int_range};

use crate::shape::{
    flat_to_multi_index, in_bounds, lemma_row_major_below, lemma_row_major_injective, multi_to_flat_index, product,
    row_major, sizes_fit, Shape,
};

verus! {

/// A dense array with a shape, its elements in row-major order.
#[derive(Debug, Clone)]
pub struct MultiDimArray<T> {
    data: Vec<T>,
    shape: Shape,
}

fn copy_elements<T: Copy>(v: &[T]) -> (r: Vec<T>)
    ensures
        r@ == v@,
{
    let mut out: Vec<T> = Vec::new();
    let mut i: usize = 0;
    while i < v.len()
        invariant
            i <= v@.len(),
            out@ == v@.take(i as int),
        decreases v@.len() - i,
    {
        out.push(v[i]);
        i = i + 1;
        assert(out@ =~= v@.take(i as int));
    }
    assert(out@ =~= v@);
    out
}

impl<T: Copy> MultiDimArray<T> {
    /// The dimensions.
    pub closed spec fn dims(&self) -> Seq<usize> {
        self.shape@
    }

    /// The elements, in row-major order.
    pub closed spec fn elems(&self) -> Seq<T> {
        self.data@
    }

    /// One element per position of the shape.
    pub open spec fn wf(&self) -> bool {
        &&& sizes_fit(self.dims())
        &&& self.elems().len() == product(self.dims())
    }

    /// An array of the given shape over `data`, which must hold exactly one
    /// element per position of a valid shape.
    pub fn new(shape: Shape, data: Vec<T>) -> (r: QuantumResult<Self>)
        requires
            sizes_fit(shape@),
        ensures
            r is Ok <==> valid_dims(shape@) && data@.len() == product(shape@),
            r matches Ok(a) ==> a.wf() && a.dims() == shape@ && a.elems() == data@,
            r matches Err(e) ==> if !valid_dims(shape@) {
                e is InvalidQuantumState
            } else {
                e matches QuantumError::DimensionMismatch { expected, actual } && expected@ == seq![
                    product(shape@) as usize,
                ] && actual@ == seq![data@.len() as usize]
            },
    {
        if !shape.is_valid() {
            return Err(QuantumError::InvalidQuantumState { reason: "形状无效".to_string() });
        }
        let size = shape.size();
        if data.len() != size {
            return Err(QuantumError::DimensionMismatch { expected: vec![size], actual: vec![data.len()] });
        }
        Ok(MultiDimArray { data, shape })
    }

    /// An array of zeros.
    pub fn zeros(shape: Shape) -> (r: QuantumResult<Self>)
        where
            T: ArrayElement,
        requires
            sizes_fit(shape@),
        ensures
            r is Ok <==> valid_dims(shape@),
            r matches Ok(a) ==> a.wf() && a.dims() == shape@ && a.elems() == Seq::new(
                product(shape@),
                |i: int| T::zero_value(),
            ),
            r matches Err(e) ==> e is InvalidQuantumState,
    {
        let size = shape.size();
        let mut data: Vec<T> = Vec::new();
        let mut i: usize = 0;
        while i < size
            invariant
                i <= size,
                data@ == Seq::new(i as nat, |k: int| T::zero_value()),
            decreases size - i,
        {
            data.push(T::zero());
            i = i + 1;
            assert(data@ =~= Seq::new(i as nat, |k: int| T::zero_value()));
        }
        Self::new(shape, data)
    }

    /// An array of ones.
    pub fn ones(shape: Shape) -> (r: QuantumResult<Self>)
        where
            T: ArrayElement,
        requires
            sizes_fit(shape@),
        ensures
            r is Ok <==> valid_dims(shape@),
            r matches Ok(a) ==> a.wf() && a.dims() == shape@ && a.elems() == Seq::new(
                product(shape@),
                |i: int| T::one_value(),
            ),
            r matches Err(e) ==> e is InvalidQuantumState,
    {
        let size = shape.size();
        let mut data: Vec<T> = Vec::new();
        let mut i: usize = 0;
        while i < size
            invariant
                i <= size,
                data@ == Seq::new(i as nat, |k: int| T::one_value()),
            decreases size - i,
        {
            data.push(T::one());
            i = i + 1;
            assert(data@ =~= Seq::new(i as nat, |k: int| T::one_value()));
        }
        Self::new(shape, data)
    }

    /// The shape.
    pub fn shape(&self) -> (r: &Shape)
        ensures
            r@ == self.dims(),
    {
        &self.shape
    }

    /// The elements, in row-major order.
    pub fn data(&self) -> (r: &[T])
        ensures
            r@ == self.elems(),
    {
        self.data.as_slice()
    }

    /// A copy of the elements, in row-major order.
    pub fn to_vec(&self) -> (r: Vec<T>)
        ensures
            r@ == self.elems(),
    {
        copy_elements(self.data.as_slice())
    }

    /// The element at multi-dimensional index `index`.
    pub fn get(&self, index: &Vec<usize>) -> (r: QuantumResult<&T>)
        requires
            self.wf(),
        ensures
            r is Ok <==> in_bounds(index@, self.dims()),
            r matches Ok(v) ==> *v == self.elems()[row_major(index@, self.dims()) as int],
            r matches Err(e) ==> e is DimensionMismatch,
    {
        let flat = multi_to_flat_index(index, &self.shape);
        match flat {
            Ok(f) => {
                proof {
                    crate::shape::lemma_row_major_below(index@, self.dims());
                }
                Ok(&self.data[f])
            },
            Err(e) => Err(e),
        }
    }

    /// Replaces the element at multi-dimensional index `index`.
    pub fn set(&mut self, index: &Vec<usize>, value: T) -> (r: QuantumResult<()>)
        requires
            old(self).wf(),
        ensures
            final(self).wf(),
            final(self).dims() == old(self).dims(),
            r is Ok <==> in_bounds(index@, old(self).dims()),
            r is Ok ==> final(self).elems() == old(self).elems().update(
                row_major(index@, old(self).dims()) as int,
                value,
            ),
            r matches Err(e) ==> e is DimensionMismatch && final(self).elems() == old(self).elems(),
    {
        let flat = multi_to_flat_index(index, &self.shape);
        match flat {
            Ok(f) => {
                proof {
                    crate::shape::lemma_row_major_below(index@, self.dims());
                }
                self.data[f] = value;
                Ok(())
            },
            Err(e) => Err(e),
        }
    }

    /// The same elements under another shape with the same element count.
    pub fn reshape(&self, new_shape: Shape) -> (r: QuantumResult<Self>)
        requires
            self.wf(),
            sizes_fit(new_shape@),
        ensures
            r is Ok <==> product(new_shape@) == product(self.dims()),
            r matches Ok(a) ==> a.wf() && a.dims() == new_shape@ && a.elems() == self.elems(),
            r matches Err(e) ==> e matches QuantumError::DimensionMismatch { expected, actual } && expected@
                == seq![product(self.dims()) as usize] && actual@ == seq![product(new_shape@) as usize],
    {
        let old_size = self.shape.size();
        let new_size = new_shape.size();
        if new_size != old_size {
            return Err(QuantumError::DimensionMismatch { expected: vec![old_size], actual: vec![new_size] });
        }
        Ok(MultiDimArray { data: copy_elements(self.data.as_slice()), shape: new_shape })
    }

    /// The array with its axes reordered: axis `k` of the result is axis
    /// `axes[k]` of this array, and the elements are moved to match.
    pub fn transpose(&self, axes: Vec<usize>) -> (r: QuantumResult<Self>)
        requires
            self.wf(),
            valid_axes(axes@, self.dims().len()) ==> sizes_fit(permuted(self.dims(), axes@)),
        ensures
            r is Ok <==> valid_axes(axes@, self.dims().len()),
            r matches Ok(t) ==> {
                &&& t.wf()
                &&& t.dims() == permuted(self.dims(), axes@)
                &&& forall|j: Seq<usize>, o: Seq<usize>|
                    #![trigger row_major(j, t.dims()), row_major(o, self.dims())]
                    in_bounds(j, t.dims()) && transposed_from(o, j, axes@) ==> t.elems()[row_major(j, t.dims()) as int]
                        == self.elems()[row_major(o, self.dims()) as int]
            },
            r matches Err(e) ==> if axes@.len() != self.dims().len() {
                e is DimensionMismatch
            } else {
                exists|b: int|
                    0 <= b < axes@.len() && #[trigger] axes_ok_upto(axes@, self.dims().len(), b) && if axes@[b]
                        >= self.dims().len() {
                        e is DimensionMismatch
                    } else {
                        e is InvalidQuantumState
                    }
            },
    {
        let n = self.shape.ndim();
        if axes.len() != n {
            return Err(QuantumError::DimensionMismatch { expected: vec![n], actual: vec![axes.len()] });
        }
        let ghost dims = self.dims();
        let mut seen: Vec<bool> = vec![false; n];
        let mut i: usize = 0;
        while i < n
            invariant
                n == dims.len(),
                dims == self.dims(),
                n == axes@.len(),
                seen@.len() == n,
                i <= n,
                axes_ok_upto(axes@, n as nat, i as int),
                forall|a: int| 0 <= a < n ==> seen@[a] == exists|k: int| 0 <= k < i && axes@[k] == a,
            decreases n - i,
        {
            let axis = axes[i];
            if axis >= n {
                assert(axes_ok_upto(axes@, n as nat, i as int));
                return Err(QuantumError::DimensionMismatch { expected: vec![n], actual: vec![axis] });
            }
            if seen[axis] {
                let err = QuantumError::InvalidQuantumState { reason: "重复轴索引".to_string() };
                proof {
                    let k = choose|k: int| 0 <= k < i && axes@[k] == axis;
                    assert(!valid_axes(axes@, n as nat)) by {
                        assert(axes@[k] == axes@[i as int]);
                    }
                    assert(axes_ok_upto(axes@, self.dims().len(), i as int) && axes@[i as int] < n);
                }
                return Err(err);
            }
            seen.set(axis, true);
            proof {
                assert forall|a: int| 0 <= a < n implies seen@[a] == exists|k: int| 0 <= k < i + 1 && axes@[k] == a by {
                    if a == axis {
                        assert(axes@[i as int] == a);
                    } else if seen@[a] {
                        let k = choose|k: int| 0 <= k < i && axes@[k] == a;
                        assert(0 <= k < i + 1 && axes@[k] == a);
                    } else {
                        assert forall|k: int| 0 <= k < i + 1 implies axes@[k] != a by {
                            if k < i {
                                assert(!(exists|k2: int| 0 <= k2 < i && axes@[k2] == a));
                            }
                        }
                    }
                }
            }
            i = i + 1;
        }
        assert(valid_axes(axes@, n as nat));
        let old_dims = self.shape.dimensions();
        let mut new_dims: Vec<usize> = Vec::new();
        let mut k: usize = 0;
        while k < n
            invariant
                n == dims.len(),
                n == axes@.len(),
                old_dims@ == dims,
                valid_axes(axes@, n as nat),
                k <= n,
                new_dims@ == permuted(dims, axes@).take(k as int),
            decreases n - k,
        {
            new_dims.push(old_dims[axes[k]]);
            k = k + 1;
            assert(new_dims@ =~= permuted(dims, axes@).take(k as int));
        }
        assert(new_dims@ =~= permuted(dims, axes@));
        let new_shape = Shape::new(new_dims);
        let ghost nd = new_shape@;
        let new_size = new_shape.size();
        let mut new_data: Vec<T> = Vec::new();
        let mut f: usize = 0;
        while f < new_size
            invariant
                self.wf(),
                n == dims.len(),
                n == axes@.len(),
                dims == self.dims(),
                nd == new_shape@,
                nd == permuted(dims, axes@),
                sizes_fit(nd),
                valid_axes(axes@, n as nat),
                new_size == product(nd),
                f <= new_size,
                new_data@.len() == f,
                forall|j: Seq<usize>, o: Seq<usize>|
                    #![trigger row_major(j, nd), row_major(o, dims)]
                    in_bounds(j, nd) && row_major(j, nd) < f && transposed_from(o, j, axes@) ==> new_data@[row_major(
                        j,
                        nd,
                    ) as int] == self.elems()[row_major(o, dims) as int],
            decreases new_size - f,
        {
            let j = match flat_to_multi_index(f, &new_shape) {
                Ok(v) => v,
                Err(e) => return Err(e),
            };
            let mut o: Vec<usize> = vec![0; n];
            let mut k: usize = 0;
            while k < n
                invariant
                    n == axes@.len(),
                    n == j@.len(),
                    o@.len() == n,
                    valid_axes(axes@, n as nat),
                    k <= n,
                    forall|k2: int| 0 <= k2 < k ==> o@[axes@[k2] as int] == j@[k2],
                decreases n - k,
            {
                let ghost before = o@;
                o.set(axes[k], j[k]);
                proof {
                    assert forall|k2: int| 0 <= k2 < k + 1 implies o@[axes@[k2] as int] == j@[k2] by {
                        if k2 < k {
                            assert(axes@[k2] != axes@[k as int]);
                        }
                    }
                }
                k = k + 1;
            }
            proof {
                assert(transposed_from(o@, j@, axes@));
                assert forall|p: int| 0 <= p < n implies o@[p] < dims[p] by {
                    lemma_axes_cover(axes@, n as nat, p);
                    let k2 = choose|k2: int| 0 <= k2 < n && axes@[k2] == p;
                    assert(j@[k2] < nd[k2]);
                }
                assert(in_bounds(o@, dims));
            }
            let old_flat = match multi_to_flat_index(&o, &self.shape) {
                Ok(v) => v,
                Err(e) => return Err(e),
            };
            proof {
                lemma_row_major_below(o@, dims);
            }
            new_data.push(self.data[old_flat]);
            proof {
                assert forall|j2: Seq<usize>, o2: Seq<usize>|
                    in_bounds(j2, nd) && row_major(j2, nd) < f + 1 && transposed_from(o2, j2, axes@) implies new_data@[row_major(
                    j2,
                    nd,
                ) as int] == self.elems()[row_major(o2, dims) as int] by {
                    if row_major(j2, nd) == f {
                        lemma_row_major_injective(j2, j@, nd);
                        assert(o2 =~= o@) by {
                            assert forall|p: int| 0 <= p < n implies o2[p] == o@[p] by {
                                lemma_axes_cover(axes@, n as nat, p);
                                let k2 = choose|k2: int| 0 <= k2 < n && axes@[k2] == p;
                                assert(o2[axes@[k2] as int] == j2[k2]);
                                assert(o@[axes@[k2] as int] == j@[k2]);
                            }
                        }
                    }
                }
            }
            f = f + 1;
        }
        let t = MultiDimArray { data: new_data, shape: new_shape };
        proof {
            assert forall|j: Seq<usize>, o: Seq<usize>|
                #![trigger row_major(j, t.dims()), row_major(o, self.dims())]
                in_bounds(j, t.dims()) && transposed_from(o, j, axes@) implies t.elems()[row_major(j, t.dims()) as int]
                == self.elems()[row_major(o, self.dims()) as int] by {
                lemma_row_major_below(j, nd);
            }
        }
        Ok(t)
    }
}

/// `axes` lists each of the axes `0 .. n` once.
pub open spec fn valid_axes(axes: Seq<usize>, n: nat) -> bool {
    &&& axes.len() == n
    &&& axes_ok_upto(axes, n, n as int)
}

/// The first `m` entries of `axes` are axes below `n`, none repeated.
pub open spec fn axes_ok_upto(axes: Seq<usize>, n: nat, m: int) -> bool {
    &&& forall|k: int| 0 <= k < m ==> axes[k] < n
    &&& forall|j: int, k: int| 0 <= j < k < m ==> axes[j] != axes[k]
}

/// The dimensions taken in the order `axes`.
pub open spec fn permuted(dims: Seq<usize>, axes: Seq<usize>) -> Seq<usize> {
    Seq::new(axes.len(), |k: int| dims[axes[k] as int])
}

/// `o` is where, in the source array, the element at index `j` of the
/// transposed array comes from: axis `k` of the result is axis `axes[k]` of
/// the source.
pub open spec fn transposed_from(o: Seq<usize>, j: Seq<usize>, axes: Seq<usize>) -> bool {
    &&& o.len() == axes.len()
    &&& forall|k: int| 0 <= k < axes.len() ==> o[axes[k] as int] == j[k]
}

/// Every axis appears in a list of `n` distinct axes below `n`.
proof fn lemma_axes_cover(axes: Seq<usize>, n: nat, p: int)
    requires
        valid_axes(axes, n),
        0 <= p < n,
    ensures
        exists|k: int| 0 <= k < n && axes[k] == p,
{
    let ints = axes.map_values(|x: usize| x as int);
    assert(ints.no_duplicates()) by {
        assert forall|j: int, k: int| 0 <= j < ints.len() && 0 <= k < ints.len() && j != k implies ints[j]
            != ints[k] by {
            if j < k {
                assert(axes[j] != axes[k]);
            } else {
                assert(axes[k] != axes[j]);
            }
        }
    }
    ints.unique_seq_to_set();
    lemma_int_range(0, n as int);
    assert(ints.to_set().subset_of(set_int_range(0, n as int))) by {
        assert forall|x: int| ints.to_set().contains(x) implies set_int_range(0, n as int).contains(x) by {
            let k = choose|k: int| 0 <= k < ints.len() && ints[k] == x;
            assert(axes[k] < n);
        }
    }
    lemma_subset_equality(ints.to_set(), set_int_range(0, n as int));
    assert(set_int_range(0, n as int).contains(p));
    assert(ints.to_set().contains(p));
    let k = choose|k: int| 0 <= k < ints.len() && ints[k] == p;
    assert(axes[k] == p);
}

/// A valid shape has at least one dimension and no zero dimension.
pub open spec fn valid_dims(dims: Seq<usize>) -> bool {
    dims.len() > 0 && forall|i: int| 0 <= i < dims.len() ==> dims[i] > 0
}

} // verus!
