//! A multi-dimensional vector stored as one contiguous buffer with a shape.

use vstd::prelude::*;
use std::ops::{Index, Range};

verus! {

/// The number of cells of a matrix with the given axes: their product, and 1
/// for no axes at all.
pub open spec fn volume(axes: Seq<usize>) -> nat
    decreases axes.len(),
{
    if axes.len() == 0 {
        1
    } else {
        volume(axes.drop_last()) * (axes.last() as nat)
    }
}

/// A volume with an axis of length zero is zero.
pub proof fn lemma_volume_zero(axes: Seq<usize>, k: int)
    requires
        0 <= k < axes.len(),
        axes[k] == 0,
    ensures
        volume(axes) == 0,
    decreases axes.len(),
{
    if k == axes.len() - 1 {
        assert(volume(axes.drop_last()) * 0 == 0) by (nonlinear_arith);
    } else {
        lemma_volume_zero(axes.drop_last(), k);
        assert(0 * (axes.last() as nat) == 0) by (nonlinear_arith);
    }
}

/// Without an axis of length zero, the volume of a prefix of the axes is
/// at most the volume of all of them.
pub proof fn lemma_volume_prefix(axes: Seq<usize>, k: int)
    requires
        0 <= k <= axes.len(),
        forall|i: int| 0 <= i < axes.len() ==> axes[i] > 0,
    ensures
        volume(axes.take(k)) <= volume(axes),
    decreases axes.len() - k,
{
    if k == axes.len() {
        assert(axes.take(k) =~= axes);
    } else {
        lemma_volume_prefix(axes, k + 1);
        let longer = axes.take(k + 1);
        assert(longer.drop_last() =~= axes.take(k));
        let v = volume(axes.take(k));
        let a = axes[k] as nat;
        assert(v <= v * a) by (nonlinear_arith)
            requires
                a >= 1,
        ;
    }
}

/// The volume of two axes is the product of their lengths.
pub proof fn lemma_volume_two(axes: Seq<usize>)
    requires
        axes.len() == 2,
    ensures
        volume(axes) == (axes[0] as nat) * (axes[1] as nat),
{
    let one = axes.drop_last();
    assert(volume(one.drop_last()) == 1);
    assert(volume(one) == 1 * (axes[0] as nat));
    assert(1 * (axes[0] as nat) == axes[0] as nat) by (nonlinear_arith);
}

/// Computes the product of the axes.
pub fn axes_product<const D: usize>(axes: &[usize; D]) -> (product: usize)
    requires
        volume(axes@) <= usize::MAX,
    ensures
        product == volume(axes@),
{
    let mut k: usize = 0;
    while k < D
        invariant
            k <= D,
            axes@.len() == D,
            forall|i: int| 0 <= i < k ==> axes@[i] > 0,
        decreases D - k,
    {
        if axes[k] == 0 {
            proof {
                lemma_volume_zero(axes@, k as int);
            }
            return 0;
        }
        k += 1;
    }
    let mut product: usize = 1;
    let mut j: usize = 0;
    while j < D
        invariant
            j <= D,
            axes@.len() == D,
            forall|i: int| 0 <= i < D ==> axes@[i] > 0,
            volume(axes@) <= usize::MAX,
            product == volume(axes@.take(j as int)),
        decreases D - j,
    {
        proof {
            lemma_volume_prefix(axes@, j + 1);
            let longer = axes@.take(j + 1);
            assert(longer.drop_last() =~= axes@.take(j as int));
        }
        product = product * axes[j];
        j += 1;
    }
    proof {
        assert(axes@.take(D as int) =~= axes@);
    }
    product
}

/// A multi-dimensional vector: a flat buffer of cells and the length of each
/// axis. A full vector holds exactly as many cells as its axes span.
#[derive(Debug, Ord, Hash)]
pub struct MultiVec<T, const D: usize> {
    pub(crate) data: Vec<T>,
    pub(crate) axes: [usize; D],
}

impl<T, const D: usize> View for MultiVec<T, D> {
    type V = Seq<T>;

    /// The cells in storage order.
    closed spec fn view(&self) -> Seq<T> {
        self.data@
    }
}

impl<T, const D: usize> MultiVec<T, D> {
    /// The length of each axis.
    pub closed spec fn shape(&self) -> Seq<usize> {
        self.axes@
    }

    /// Whether the buffer holds exactly the cells that the axes span.
    pub open spec fn is_full(&self) -> bool {
        self@.len() == volume(self.shape())
    }

    /// Reinterprets the cells under new axes that span as many cells.
    pub fn iso(&mut self, new_axes: [usize; D])
        requires
            volume(old(self).shape()) == volume(new_axes@),
        ensures
            final(self).shape() == new_axes@,
            final(self)@ == old(self)@,
    {
        self.axes = new_axes;
    }

    /// Returns the number of cells.
    pub fn len(&self) -> (len: usize)
        ensures
            len == self@.len(),
    {
        self.data.len()
    }

    /// Returns true if the [`MultiVec`] holds no cell.
    pub fn is_empty(&self) -> (empty: bool)
        ensures
            empty == (self@.len() == 0),
    {
        self.data.len() == 0
    }

    /// Returns the axes.
    pub fn axes(&self) -> (axes: [usize; D])
        ensures
            axes@ == self.shape(),
    {
        self.axes
    }
}

impl<T: Default, const D: usize> MultiVec<T, D> {
    /// Constructs a full [`MultiVec`] with the specified axes, none of them
    /// of length zero, every cell holding the default value of its type.
    pub fn new(axes: [usize; D]) -> (out: Self)
        requires
            forall|i: int| 0 <= i < D ==> axes@[i] > 0,
            volume(axes@) <= usize::MAX,
        ensures
            out.shape() == axes@,
            out.is_full(),
            forall|i: int|
                0 <= i < out@.len() ==> call_ensures(T::default, (), #[trigger] out@[i]),
    {
        let count = axes_product(&axes);
        let mut data: Vec<T> = Vec::with_capacity(count);
        let mut i: usize = 0;
        while i < count
            invariant
                i <= count,
                data@.len() == i,
                forall|k: int| 0 <= k < i ==> call_ensures(T::default, (), #[trigger] data@[k]),
            decreases count - i,
        {
            data.push(T::default());
            i += 1;
        }
        Self { data, axes }
    }
}

impl<T: Copy, const D: usize> MultiVec<T, D> {
    /// Constructs a full [`MultiVec`] with the specified axes, every cell
    /// holding the specified value.
    pub fn fill(axes: [usize; D], value: T) -> (out: Self)
        requires
            volume(axes@) <= usize::MAX,
        ensures
            out.shape() == axes@,
            out.is_full(),
            forall|i: int| 0 <= i < out@.len() ==> out@[i] == value,
    {
        let count = axes_product(&axes);
        let mut data: Vec<T> = Vec::with_capacity(count);
        let mut i: usize = 0;
        while i < count
            invariant
                i <= count,
                data@.len() == i,
                forall|k: int| 0 <= k < i ==> data@[k] == value,
            decreases count - i,
        {
            data.push(value);
            i += 1;
        }
        Self { data, axes }
    }
}

impl<T> MultiVec<T, 2> {
    /// The number of rows.
    pub open spec fn rows(&self) -> nat {
        self.shape()[0] as nat
    }

    /// The number of cells in a row.
    pub open spec fn cols(&self) -> nat {
        self.shape()[1] as nat
    }

    /// The flat index at which row `index` begins.
    pub fn begin(&self, index: usize) -> (start: usize)
        requires
            index * self.cols() <= usize::MAX,
        ensures
            start == index * self.cols(),
    {
        index * self.axes[1]
    }

    /// Converts the [`MultiVec`] to a [`Vec`] of its cells.
    pub fn to_vec(self) -> (out: Vec<T>)
        ensures
            out@ == self@,
    {
        self.data
    }
}

impl<T> MultiVec<T, 2> {
    /// Whether row `i` lies within the buffer.
    pub open spec fn has_row(&self, i: int) -> bool {
        0 <= i && (i + 1) * self.cols() <= self@.len()
    }

    /// The cells of row `i`.
    pub open spec fn row(&self, i: int) -> Seq<T> {
        self@.subrange(i * self.cols(), (i + 1) * self.cols())
    }

    /// Whether the cells from `start` up to `end`, counted from the beginning
    /// of row `i`, lie within the buffer.
    pub open spec fn has_range(&self, i: int, start: int, end: int) -> bool {
        0 <= i && 0 <= start <= end && i * self.cols() + end <= self@.len()
    }

    /// The cells from `start` up to `end`, counted from the beginning of row
    /// `i`.
    pub open spec fn range(&self, i: int, start: int, end: int) -> Seq<T> {
        self@.subrange(i * self.cols() + start, i * self.cols() + end)
    }

    /// The cells of row `i` from column `start` on.
    pub fn range_from(&self, i: usize, start: usize) -> (out: &[T])
        requires
            self.has_row(i as int),
            start <= self.cols(),
        ensures
            out@ == self.range(i as int, start as int, self.cols() as int),
    {
        let cols = self.axes[1];
        let _ = self.data.len();
        proof {
            assert(0 <= i * cols) by (nonlinear_arith);
            assert((i + 1) * cols == i * cols + cols) by (nonlinear_arith);
        }
        let b = i * cols;
        vstd::slice::slice_subrange(self.data.as_slice(), b + start, b + cols)
    }

    /// The cells from the beginning of row `i` up to column `end`.
    pub fn range_to(&self, i: usize, end: usize) -> (out: &[T])
        requires
            self.has_range(i as int, 0, end as int),
        ensures
            out@ == self.range(i as int, 0, end as int),
    {
        let cols = self.axes[1];
        let _ = self.data.len();
        proof {
            assert(0 <= i * cols) by (nonlinear_arith);
        }
        let b = i * cols;
        vstd::slice::slice_subrange(self.data.as_slice(), b, b + end)
    }

    /// The cells of row `i` from column `start` through column `end`.
    pub fn range_inclusive(&self, i: usize, start: usize, end: usize) -> (out: &[T])
        requires
            self.has_range(i as int, start as int, end + 1),
        ensures
            out@ == self.range(i as int, start as int, end + 1),
    {
        let cols = self.axes[1];
        let _ = self.data.len();
        proof {
            assert(0 <= i * cols) by (nonlinear_arith);
        }
        let b = i * cols;
        vstd::slice::slice_subrange(self.data.as_slice(), b + start, b + end + 1)
    }

    /// The cells from the beginning of row `i` through column `end`.
    pub fn range_to_inclusive(&self, i: usize, end: usize) -> (out: &[T])
        requires
            self.has_range(i as int, 0, end + 1),
        ensures
            out@ == self.range(i as int, 0, end + 1),
    {
        let cols = self.axes[1];
        let _ = self.data.len();
        proof {
            assert(0 <= i * cols) by (nonlinear_arith);
        }
        let b = i * cols;
        vstd::slice::slice_subrange(self.data.as_slice(), b, b + end + 1)
    }

    /// The cells from `start` up to `end`, counted from the beginning of row
    /// `i`, to be written. All other cells stay as they are.
    pub fn range_mut(&mut self, i: usize, start: usize, end: usize) -> (out: &mut [T])
        requires
            old(self).has_range(i as int, start as int, end as int),
        ensures
            out@ == old(self).range(i as int, start as int, end as int),
            final(self).shape() == old(self).shape(),
            final(self)@ == old(self)@.subrange(0, i * old(self).cols() + start) + final(out)@
                + old(self)@.subrange(i * old(self).cols() + end, old(self)@.len() as int),
    {
        let cols = self.axes[1];
        let ghost len = self.data@.len();
        let _ = self.data.len();
        proof {
            assert(0 <= i * cols) by (nonlinear_arith);
        }
        let b = i * cols;
        let all = self.data.as_mut_slice();
        let (_head, tail) = all.split_at_mut(b + start);
        let (out, _rest) = tail.split_at_mut(end - start);
        proof {
            assert(old(self)@.subrange(b + start, len as int).subrange(0, end - start)
                =~= old(self)@.subrange(b + start, b + end));
            assert(old(self)@.subrange(b + start, len as int).subrange(
                end - start,
                len - (b + start),
            ) =~= old(self)@.subrange(b + end, len as int));
        }
        out
    }

    /// The cells of row `i`, to be written. All other cells stay as they are.
    pub fn row_mut(&mut self, i: usize) -> (out: &mut [T])
        requires
            old(self).has_row(i as int),
        ensures
            out@ == old(self).row(i as int),
            final(self).shape() == old(self).shape(),
            final(self)@ == old(self)@.subrange(0, i * old(self).cols()) + final(out)@ + old(
                self,
            )@.subrange((i + 1) * old(self).cols(), old(self)@.len() as int),
    {
        let cols = self.axes[1];
        proof {
            assert((i + 1) * cols == i * cols + cols) by (nonlinear_arith);
        }
        self.range_mut(i, 0, cols)
    }
}

impl<T> vstd::std_specs::core::IndexSpecImpl<usize> for MultiVec<T, 2> {
    open spec fn index_req(&self, index: &usize) -> bool {
        self.has_row(*index as int)
    }
}

impl<T> Index<usize> for MultiVec<T, 2> {
    type Output = [T];

    /// The cells of row `i`.
    fn index(&self, i: usize) -> (out: &[T])
        ensures
            out@ == self.row(i as int),
    {
        let cols = self.axes[1];
        let _ = self.data.len();
        proof {
            assert(i * cols <= (i + 1) * cols) by (nonlinear_arith);
            assert((i + 1) * cols == i * cols + cols) by (nonlinear_arith);
        }
        let b = i * cols;
        vstd::slice::slice_subrange(self.data.as_slice(), b, b + cols)
    }
}

impl<T> vstd::std_specs::core::IndexSpecImpl<(usize, usize)> for MultiVec<T, 2> {
    open spec fn index_req(&self, index: &(usize, usize)) -> bool {
        index.0 * self.cols() + index.1 < self@.len()
    }
}

impl<T> Index<(usize, usize)> for MultiVec<T, 2> {
    type Output = T;

    /// The cell of row `i` at column `j`.
    fn index(&self, index: (usize, usize)) -> (out: &T)
        ensures
            *out == self@[index.0 * self.cols() + index.1],
    {
        let cols = self.axes[1];
        let _ = self.data.len();
        proof {
            assert(0 <= index.0 * cols) by (nonlinear_arith);
        }
        &self.data[index.0 * cols + index.1]
    }
}

impl<T> vstd::std_specs::core::IndexSpecImpl<(usize, Range<usize>)> for MultiVec<T, 2> {
    open spec fn index_req(&self, index: &(usize, Range<usize>)) -> bool {
        self.has_range(index.0 as int, index.1.start as int, index.1.end as int)
    }
}

impl<T> Index<(usize, Range<usize>)> for MultiVec<T, 2> {
    type Output = [T];

    /// The cells of row `i` from column `start` up to column `end`.
    fn index(&self, index: (usize, Range<usize>)) -> (out: &[T])
        ensures
            out@ == self.range(index.0 as int, index.1.start as int, index.1.end as int),
    {
        let cols = self.axes[1];
        let _ = self.data.len();
        proof {
            assert(0 <= index.0 * cols) by (nonlinear_arith);
        }
        let b = index.0 * cols;
        vstd::slice::slice_subrange(self.data.as_slice(), b + index.1.start, b + index.1.end)
    }
}

impl<T, const D: usize> MultiVec<T, D> {
    /// Constructs a full [`MultiVec`] with the specified axes, the cell at
    /// flat index `i` holding what `f` returns for `i`.
    pub fn fill_fn<F: Fn(usize) -> T>(axes: [usize; D], f: F) -> (out: Self)
        requires
            volume(axes@) <= usize::MAX,
            forall|i: usize| i < volume(axes@) ==> call_requires(f, (i,)),
        ensures
            out.shape() == axes@,
            out.is_full(),
            forall|i: int|
                0 <= i < out@.len() ==> call_ensures(f, (i as usize,), #[trigger] out@[i]),
    {
        let count = axes_product(&axes);
        let mut data: Vec<T> = Vec::with_capacity(count);
        let mut i: usize = 0;
        while i < count
            invariant
                i <= count,
                count == volume(axes@),
                data@.len() == i,
                forall|k: usize| k < volume(axes@) ==> call_requires(f, (k,)),
                forall|k: int| 0 <= k < i ==> call_ensures(f, (k as usize,), #[trigger] data@[k]),
            decreases count - i,
        {
            data.push(f(i));
            i += 1;
        }
        Self { data, axes }
    }

    /// Returns an iterator over references to the cells, in storage order.
    pub fn iter(&self) -> (iter: std::slice::Iter<'_, T>)
        ensures
            vstd::std_specs::slice::into_iter_elts(iter) == self@,
            vstd::std_specs::iter::IteratorSpec::decrease(&iter) is Some,
            vstd::std_specs::iter::IteratorSpec::initial_value_relation(&iter, &iter),
    {
        self.data.as_slice().iter()
    }

    /// Returns the cells as a mutable slice, in storage order.
    pub fn iter_mut(&mut self) -> (cells: &mut [T])
        ensures
            cells@ == old(self)@,
            final(cells)@ == final(self)@,
            final(self).shape() == old(self).shape(),
    {
        self.data.as_mut_slice()
    }

    /// Constructs a [`MultiVec`] with the specified axes around a buffer of
    /// cells, which need not be as many as the axes span.
    pub(crate) fn from_parts(axes: [usize; D], data: Vec<T>) -> (out: Self)
        ensures
            out@ == data@,
            out.shape() == axes@,
    {
        Self { data, axes }
    }

    /// The cells as a mutable slice, in storage order.
    pub fn as_mut(&mut self) -> (cells: &mut [T])
        ensures
            cells@ == old(self)@,
            final(cells)@ == final(self)@,
            final(self).shape() == old(self).shape(),
    {
        self.data.as_mut_slice()
    }

    /// The cells as a slice, in storage order.
    pub fn as_ref(&self) -> (cells: &[T])
        ensures
            cells@ == self@,
    {
        self.data.as_slice()
    }
}

/// Calls `Zeroize::zeroize` of `zeroize` on a vector of bytes, which
/// overwrites the bytes and the spare capacity with zeros and then empties
/// the vector. It is for buffers that are done with.
#[verifier::external_body]
pub(crate) fn zeroize_bytes(data: &mut Vec<u8>)
    ensures
        final(data)@.len() == 0,
{
    zeroize::Zeroize::zeroize(data);
}

/// Calls `Zeroize::zeroize` of `zeroize` on the bytes of a vector as a slice,
/// which overwrites every byte with zero, by writes that the compiler may not
/// leave out, and keeps their number. It does not panic.
#[verifier::external_body]
pub(crate) fn zeroize_cells(data: &mut Vec<u8>)
    ensures
        final(data)@.len() == old(data)@.len(),
        forall|i: int| 0 <= i < final(data)@.len() ==> final(data)@[i] == 0,
    opens_invariants none
    no_unwind
{
    zeroize::Zeroize::zeroize(data.as_mut_slice());
}

impl<const D: usize> MultiVec<u8, D> {
    /// Wipes the buffer: every cell is overwritten with zero. The matrix
    /// keeps its cells and its axes.
    pub fn zeroize(&mut self)
        ensures
            final(self)@.len() == old(self)@.len(),
            forall|i: int| 0 <= i < final(self)@.len() ==> final(self)@[i] == 0,
            final(self).shape() == old(self).shape(),
        opens_invariants none
        no_unwind
    {
        zeroize_cells(&mut self.data);
    }
}

impl<T, const D: usize> Default for MultiVec<T, D> {
    /// No cell, under axes of length zero.
    fn default() -> (out: Self)
        ensures
            out@.len() == 0,
            out.shape() == Seq::new(D as nat, |i: int| 0usize),
            D > 0 ==> out.is_full(),
    {
        let out = Self { data: Vec::new(), axes: [0; D] };
        proof {
            if D > 0 {
                lemma_volume_zero(out.axes@, 0);
            }
        }
        out
    }
}

impl<T: Clone, const D: usize> Clone for MultiVec<T, D> {
    fn clone(&self) -> (out: Self)
        ensures
            out.shape() == self.shape(),
            out@.len() == self@.len(),
            forall|i: int| 0 <= i < self@.len() ==> cloned::<T>(self@[i], #[trigger] out@[i]),
    {
        Self { data: self.data.clone(), axes: self.axes }
    }
}


} // verus!
