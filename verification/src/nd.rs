use crate::model::lemma_prefix_prod_nonneg;
use crate::model::{flat_len_of, is_packed_for, prefix_prod, prods_fit};
use vstd::prelude::*;

verus! {

/// A variable-rank index: an ordered, growable sequence of dimension sizes,
/// for when the rank is not known until runtime.
#[derive(Clone, PartialEq, Eq, Hash, Debug)]
pub struct IndexNd {
    pub components: Vec<usize>,
}

impl View for IndexNd {
    type V = Seq<usize>;

    open spec fn view(&self) -> Seq<usize> {
        self.components@
    }
}

impl Default for IndexNd {
    /// The empty, rank-0 variable-rank index.
    fn default() -> (r: Self)
        ensures
            r@.len() == 0,
    {
        IndexNd { components: Vec::new() }
    }
}

impl core::ops::Index<usize> for IndexNd {
    type Output = usize;

    /// Borrows the component at `index`.
    fn index(&self, index: usize) -> (r: &usize)
        ensures
            *r == self@[index as int],
    {
        &self.components[index]
    }
}

impl vstd::std_specs::core::IndexSpecImpl<usize> for IndexNd {
    open spec fn index_req(&self, index: &usize) -> bool {
        *index < self@.len()
    }
}

impl IndexNd {
    /// Wraps an explicit ordered list of per-axis sizes.
    pub fn from(components: Vec<usize>) -> (r: Self)
        ensures
            r@ == components@,
    {
        IndexNd { components }
    }

    /// The all-zero index of the given rank.
    pub fn zero(dim: usize) -> (r: Self)
        ensures
            r@.len() == dim,
            forall|i: int| 0 <= i < dim ==> r@[i] == 0,
    {
        let mut components: Vec<usize> = Vec::with_capacity(dim);
        let mut d: usize = 0;
        while d < dim
            invariant
                d <= dim,
                components@.len() == d,
                forall|i: int| 0 <= i < d ==> components@[i] == 0,
            decreases dim - d,
        {
            components.push(0);
            d = d + 1;
        }
        IndexNd { components }
    }

    /// The number of cells this shape addresses: the product of all
    /// components, 1 for rank 0 (the empty product).
    pub fn flat_len(&self) -> (r: usize)
        requires
            prods_fit(self@, self@.len() as int),
        ensures
            r == flat_len_of(self@),
    {
        let mut len: usize = 1;
        let n = self.dim();
        let mut d: usize = 0;
        while d < n
            invariant
                n == self@.len(),
                d <= n,
                len == prefix_prod(self@, d as int),
                prods_fit(self@, self@.len() as int),
            decreases n - d,
        {
            proof {
                assert(prefix_prod(self@, d + 1) == prefix_prod(self@, d as int) * (
                self@[d as int] as int));
                assert(prefix_prod(self@, d + 1) <= usize::MAX);
                lemma_prefix_prod_nonneg(self@, d + 1);
            }
            len = len * self.components[d];
            d = d + 1;
        }
        len
    }

    /// The component at `axis`.
    pub fn index_at(&self, axis: isize) -> (r: usize)
        requires
            0 <= axis < self@.len(),
        ensures
            r == self@[axis as int],
    {
        self.components[axis as usize]
    }

    /// The packed (contiguous, axis-0-fastest) stride of this shape:
    /// component 0 is 1 and component `d` is `stride[d-1] * shape[d-1]`.
    pub fn to_packed_stride(&self) -> (r: Self)
        requires
            prods_fit(self@, self@.len() as int - 1),
        ensures
            r@.len() == self@.len(),
            forall|d: int| 0 <= d < self@.len() ==> r@[d] == prefix_prod(self@, d),
    {
        let n = self.dim();
        let mut stride: Vec<usize> = Vec::with_capacity(n);
        let mut d: usize = 0;
        while d < n
            invariant
                n == self@.len(),
                d <= n,
                stride@.len() == d,
                forall|j: int| 0 <= j < d ==> stride@[j] == prefix_prod(self@, j),
                prods_fit(self@, self@.len() as int - 1),
            decreases n - d,
        {
            if d == 0 {
                stride.push(1);
            } else {
                let prev = stride[d - 1];
                proof {
                    assert(prefix_prod(self@, d as int) == prefix_prod(self@, d - 1) * (
                    self@[d - 1] as int));
                    assert(prefix_prod(self@, d as int) <= usize::MAX);
                    lemma_prefix_prod_nonneg(self@, d as int);
                }
                stride.push(prev * self.components[d - 1]);
            }
            d = d + 1;
        }
        IndexNd { components: stride }
    }

    /// True iff every component is zero.
    pub fn is_zero(&self) -> (r: bool)
        ensures
            r == (forall|i: int| 0 <= i < self@.len() ==> self@[i] == 0),
    {
        let n = self.dim();
        let mut d: usize = 0;
        while d < n
            invariant
                n == self@.len(),
                d <= n,
                forall|i: int| 0 <= i < d ==> self@[i] == 0,
            decreases n - d,
        {
            if self.components[d] != 0 {
                proof {
                    assert(self@[d as int] != 0);
                }
                return false;
            }
            d = d + 1;
        }
        true
    }

    /// True iff `stride` is exactly this shape's packed stride.
    pub fn is_packed(&self, stride: &Self) -> (r: bool)
        requires
            prods_fit(self@, self@.len() as int - 1),
        ensures
            r == is_packed_for(self@, stride@),
    {
        let packed = self.to_packed_stride();
        if packed.dim() != stride.dim() {
            return false;
        }
        let n = packed.dim();
        let mut d: usize = 0;
        while d < n
            invariant
                n == self@.len(),
                n == stride@.len(),
                d <= n,
                packed@.len() == n,
                forall|j: int| 0 <= j < n ==> packed@[j] == prefix_prod(self@, j),
                forall|j: int| 0 <= j < d ==> stride@[j] == prefix_prod(self@, j),
            decreases n - d,
        {
            if packed.components[d] != stride.components[d] {
                proof {
                    assert(stride@[d as int] != prefix_prod(self@, d as int));
                }
                return false;
            }
            d = d + 1;
        }
        true
    }

    /// The innermost (axis 0) component.
    pub fn inside(&self) -> (r: usize)
        requires
            self@.len() > 0,
        ensures
            r == self@[0],
    {
        self.components[0]
    }

    /// The outermost (highest axis) component.
    pub fn outside(&self) -> (r: usize)
        requires
            self@.len() > 0,
        ensures
            r == self@[self@.len() - 1],
    {
        self.components[self.dim() - 1]
    }

    /// The rank: the number of stored components.
    pub fn dim(&self) -> (r: usize)
        ensures
            r == self@.len(),
    {
        self.components.len()
    }

    /// Alias of `dim`.
    pub fn ndim(&self) -> (r: usize)
        ensures
            r == self@.len(),
    {
        self.dim()
    }

    /// Splits this index at `axis` into the ordered prefix of components at
    /// axes below it, the selection holding the component at exactly `axis`
    /// (empty when `axis` equals the rank), and the ordered suffix of
    /// components at axes above it; concatenating the three parts in order
    /// rebuilds the original.
    pub fn splice_at(&self, axis: isize) -> (r: (IndexNd, IndexNd, IndexNd))
        requires
            0 <= axis <= self@.len(),
        ensures
            r.0@ == self@.subrange(0, axis as int),
            axis < self@.len() ==> r.1@ == seq![self@[axis as int]],
            axis == self@.len() ==> r.1@ == Seq::<usize>::empty(),
            axis < self@.len() ==> r.2@ == self@.subrange(axis + 1, self@.len() as int),
            axis == self@.len() ==> r.2@ == Seq::<usize>::empty(),
    {
        let mut prefix_idx = IndexNd::default();
        let mut prefix_axis: isize = 0;
        proof {
            assert(prefix_idx@ =~= self@.subrange(0, 0));
        }
        while prefix_axis < axis
            invariant
                0 <= prefix_axis <= axis <= self@.len(),
                prefix_idx@ == self@.subrange(0, prefix_axis as int),
            decreases axis - prefix_axis,
        {
            prefix_idx.components.push(self.index_at(prefix_axis));
            proof {
                assert(self@.subrange(0, prefix_axis + 1) =~= self@.subrange(
                    0,
                    prefix_axis as int,
                ).push(self@[prefix_axis as int]));
            }
            prefix_axis = prefix_axis + 1;
        }
        let mut select_idx = IndexNd::default();
        let n = self.dim();
        if (axis as usize) < n {
            select_idx.components.push(self.index_at(axis));
            proof {
                assert(select_idx@ =~= seq![self@[axis as int]]);
            }
        } else {
            proof {
                assert(select_idx@ =~= Seq::<usize>::empty());
            }
        }
        let mut suffix_idx = IndexNd::default();
        if (axis as usize) < n {
            let mut suffix_axis: usize = axis as usize + 1;
            proof {
                assert(suffix_idx@ =~= self@.subrange(axis + 1, axis + 1));
            }
            while suffix_axis < n
                invariant
                    n == self@.len(),
                    0 <= axis < n,
                    axis as usize + 1 <= suffix_axis <= n,
                    suffix_idx@ == self@.subrange(axis + 1, suffix_axis as int),
                decreases n - suffix_axis,
            {
                suffix_idx.components.push(self.components[suffix_axis]);
                proof {
                    assert(self@.subrange(axis + 1, suffix_axis + 1) =~= self@.subrange(
                        axis + 1,
                        suffix_axis as int,
                    ).push(self@[suffix_axis as int]));
                }
                suffix_axis = suffix_axis + 1;
            }
        } else {
            proof {
                assert(suffix_idx@ =~= Seq::<usize>::empty());
            }
        }
        (prefix_idx, select_idx, suffix_idx)
    }
}

} // verus!
