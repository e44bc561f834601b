use crate::model::{
    dot_upto, flat_index_of, flat_len_of, inside_of, is_packed_for, outside_of, prefix_prod,
    prods_fit,
};
use crate::nd::IndexNd;
use vstd::arithmetic::mul::lemma_mul_nonnegative;
use vstd::prelude::*;

verus! {

broadcast use vstd::array::group_array_axioms;

/// The rank-0 index type: the unit value stands for the one index of an
/// array with no axes.
pub type Index0d = ();

/// The rank-1 index type: a single extent, step size, or position.
pub type Index1d = usize;

/// The rank-2 index type.
pub type Index2d = [usize; 2];

/// The rank-3 index type.
pub type Index3d = [usize; 3];

/// The rank-4 index type.
pub type Index4d = [usize; 4];

/// The rank-5 index type.
pub type Index5d = [usize; 5];

/// The inert sentinel standing one rank above rank 5. It exists only to
/// close the `Above` chain; every operation on it is deliberately
/// unreachable, since ranks beyond 5 are out of scope by design.
#[derive(Clone, Copy, PartialEq, Eq, Hash, Debug)]
pub struct UnimplIndex;

/// The mathematical face of an index type: its component sequence and its
/// rank. It stands apart from `ArrayIndex` so that the `Above`/`Below`
/// neighbor types, whose chain closes on itself at both ends, only need
/// this side of the contract.
pub trait IndexModel: Sized {
    /// The components of this value, innermost first.
    spec fn comps(&self) -> Seq<usize>;

    /// The rank of this type: how many axes a value addresses.
    spec fn rank() -> nat;

    /// False only for the sentinel above rank 5, whose operations are
    /// deliberately out of reach.
    spec fn supported() -> bool;

    /// Every value carries exactly `rank()` components.
    proof fn comps_rank(&self)
        ensures
            self.comps().len() == Self::rank(),
    ;
}

/// The shared contract of the fixed-rank index family. A value is a tuple
/// of `rank()` non-negative components, ordered from the innermost (axis 0,
/// fastest-varying) to the outermost axis, read as a shape, a stride, or a
/// coordinate depending on the operation.
pub trait ArrayIndex: IndexModel {
    /// The index type one rank above this one.
    type Above: IndexModel;

    /// The index type one rank below this one.
    type Below: IndexModel;

    /// The all-zero index of this rank.
    fn zero() -> (r: Self)
        requires
            Self::supported(),
        ensures
            r.comps().len() == Self::rank(),
            forall|i: int| 0 <= i < Self::rank() ==> r.comps()[i] == 0,
    ;

    /// Builds the index whose components are exactly `nd_shape`, which must
    /// hold one entry per axis of this rank.
    fn from_nd(nd_shape: Vec<usize>) -> (r: Self)
        requires
            Self::supported(),
            nd_shape@.len() == Self::rank(),
        ensures
            r.comps() == nd_shape@,
    ;

    /// The components as a rank-agnostic ordered list.
    fn to_nd(&self) -> (r: Vec<usize>)
        requires
            Self::supported(),
        ensures
            r@ == self.comps(),
    ;

    /// The components as a variable-rank index.
    fn _to_nd(&self) -> (r: IndexNd)
        requires
            Self::supported(),
        ensures
            r@ == self.comps(),
    {
        IndexNd { components: self.to_nd() }
    }

    /// Component-wise sum of two same-rank indices.
    fn index_add(&self, shift: &Self) -> (r: Self)
        requires
            Self::supported(),
            forall|i: int|
                0 <= i < Self::rank() ==> self.comps()[i] + shift.comps()[i] <= usize::MAX,
        ensures
            r.comps().len() == Self::rank(),
            forall|i: int| 0 <= i < Self::rank() ==> r.comps()[i] == self.comps()[i] + shift.comps()[i],
    ;

    /// Component-wise difference of two same-rank indices.
    fn index_sub(&self, shift: &Self) -> (r: Self)
        requires
            Self::supported(),
            forall|i: int| 0 <= i < Self::rank() ==> shift.comps()[i] <= self.comps()[i],
        ensures
            r.comps().len() == Self::rank(),
            forall|i: int| 0 <= i < Self::rank() ==> r.comps()[i] == self.comps()[i] - shift.comps()[i],
    ;

    /// The rank-above index with `new_inside` as the new axis 0 and every
    /// existing component shifted up by one axis.
    fn index_prepend(&self, new_inside: usize) -> (r: Self::Above)
        requires
            Self::supported(),
            <Self::Above as IndexModel>::supported(),
        ensures
            r.comps() == seq![new_inside] + self.comps(),
    ;

    /// The rank-above index with the existing components unchanged and
    /// `new_outside` as the new highest axis.
    fn index_append(&self, new_outside: usize) -> (r: Self::Above)
        requires
            Self::supported(),
            <Self::Above as IndexModel>::supported(),
        ensures
            r.comps() == self.comps().push(new_outside),
    ;

    /// The component at `axis`; rank 0 has no valid axis.
    fn index_at(&self, axis: isize) -> (r: usize)
        requires
            Self::supported(),
            0 <= axis < Self::rank(),
        ensures
            r == self.comps()[axis as int],
    ;

    /// The rank-below index with the component at `axis` removed and the
    /// remaining axes kept in order. Rank 0 is its own rank below and
    /// returns itself unchanged, for any axis.
    fn index_cut(&self, axis: isize) -> (r: Self::Below)
        requires
            Self::supported(),
            Self::rank() == 0 || (0 <= axis < Self::rank()),
        ensures
            Self::rank() == 0 ==> r.comps() == self.comps(),
            Self::rank() > 0 ==> r.comps() == self.comps().remove(axis as int),
    ;

    /// The packed (contiguous, axis-0-fastest) stride of this shape:
    /// component `d` is the product of the shape components at axes below
    /// `d`, so component 0 is always 1.
    fn to_packed_stride(&self) -> (r: Self)
        requires
            Self::supported(),
            prods_fit(self.comps(), Self::rank() as int - 1),
        ensures
            r.comps().len() == Self::rank(),
            forall|d: int| 0 <= d < Self::rank() ==> r.comps()[d] == prefix_prod(self.comps(), d),
    ;

    /// True iff `stride` is exactly this shape's packed stride; any
    /// deviation in any component reports not packed.
    fn is_packed(&self, stride: &Self) -> (r: bool)
        requires
            Self::supported(),
            prods_fit(self.comps(), Self::rank() as int - 1),
        ensures
            r == is_packed_for(self.comps(), stride.comps()),
    ;

    /// Extends a packed stride by one more packed dimension: appends
    /// `outside() * outside` as the new outermost stride component.
    fn stride_append_packed(&self, outside: usize) -> (r: Self::Above)
        requires
            Self::supported(),
            <Self::Above as IndexModel>::supported(),
            outside_of(self.comps()) * outside <= usize::MAX,
        ensures
            r.comps() == self.comps().push(((outside_of(self.comps()) * outside) as usize)),
    {
        self.index_append(self.outside() * outside)
    }

    /// The number of cells this shape addresses: the product of all
    /// components, 1 for rank 0 (the empty product).
    fn flat_len(&self) -> (r: usize)
        requires
            Self::supported(),
            prods_fit(self.comps(), Self::rank() as int),
        ensures
            r == flat_len_of(self.comps()),
    ;

    /// The linear offset of this coordinate under `stride`: the dot product
    /// of the two component tuples.
    fn flat_index(&self, stride: &Self) -> (r: usize)
        requires
            Self::supported(),
            flat_index_of(self.comps(), stride.comps()) <= usize::MAX,
        ensures
            r == flat_index_of(self.comps(), stride.comps()),
    ;

    /// The innermost (axis 0) component; 1 for rank 0 by convention.
    fn inside(&self) -> (r: usize)
        requires
            Self::supported(),
        ensures
            r == inside_of(self.comps()),
    ;

    /// The outermost (highest axis) component; 1 for rank 0 by convention.
    fn outside(&self) -> (r: usize)
        requires
            Self::supported(),
        ensures
            r == outside_of(self.comps()),
    ;

    /// The rank of this type.
    fn dim(&self) -> (r: usize)
        requires
            Self::supported(),
        ensures
            r == Self::rank(),
    ;

    /// Alias of `dim`.
    fn ndim(&self) -> (r: usize)
        requires
            Self::supported(),
        ensures
            r == Self::rank(),
    {
        self.dim()
    }
}

impl IndexModel for Index0d {
    open spec fn comps(&self) -> Seq<usize> {
        Seq::empty()
    }

    open spec fn rank() -> nat {
        0
    }

    open spec fn supported() -> bool {
        true
    }

    proof fn comps_rank(&self) {
    }
}

impl ArrayIndex for Index0d {
    type Above = Index1d;

    type Below = Index0d;

    fn zero() -> (r: Self) {
        ()
    }

    fn from_nd(nd_shape: Vec<usize>) -> (r: Self) {
        proof {
            assert(nd_shape@ =~= Seq::<usize>::empty());
        }
        ()
    }

    fn to_nd(&self) -> (r: Vec<usize>) {
        let r: Vec<usize> = Vec::new();
        r
    }

    fn index_add(&self, shift: &Self) -> (r: Self) {
        ()
    }

    fn index_sub(&self, shift: &Self) -> (r: Self) {
        ()
    }

    fn index_prepend(&self, new_inside: usize) -> (r: Self::Above) {
        proof {
            assert(seq![new_inside] + self.comps() =~= seq![new_inside]);
        }
        new_inside
    }

    fn index_append(&self, new_outside: usize) -> (r: Self::Above) {
        proof {
            assert(self.comps().push(new_outside) =~= seq![new_outside]);
            assert(new_outside.comps() == seq![new_outside]);
        }
        new_outside
    }

    fn index_at(&self, axis: isize) -> (r: usize) {
        vstd::pervasive::unreached()
    }

    fn index_cut(&self, axis: isize) -> (r: Self::Below) {
        ()
    }

    fn to_packed_stride(&self) -> (r: Self) {
        ()
    }

    fn is_packed(&self, stride: &Self) -> (r: bool) {
        true
    }

    fn flat_len(&self) -> (r: usize) {
        1
    }

    fn flat_index(&self, stride: &Self) -> (r: usize) {
        0
    }

    fn inside(&self) -> (r: usize) {
        1
    }

    fn outside(&self) -> (r: usize) {
        1
    }

    fn dim(&self) -> (r: usize) {
        0
    }
}

impl IndexModel for Index1d {
    open spec fn comps(&self) -> Seq<usize> {
        seq![*self]
    }

    open spec fn rank() -> nat {
        1
    }

    open spec fn supported() -> bool {
        true
    }

    proof fn comps_rank(&self) {
    }
}

impl ArrayIndex for Index1d {
    type Above = Index2d;

    type Below = Index0d;

    fn zero() -> (r: Self) {
        0
    }

    fn from_nd(nd_shape: Vec<usize>) -> (r: Self) {
        let r = nd_shape[0];
        proof {
            assert(seq![r] =~= nd_shape@);
        }
        r
    }

    fn to_nd(&self) -> (r: Vec<usize>) {
        let mut r: Vec<usize> = Vec::new();
        r.push(*self);
        proof {
            assert(r@ =~= seq![*self]);
        }
        r
    }

    fn index_add(&self, shift: &Self) -> (r: Self) {
        proof {
            assert(self.comps()[0] + shift.comps()[0] <= usize::MAX);
        }
        *self + *shift
    }

    fn index_sub(&self, shift: &Self) -> (r: Self) {
        proof {
            assert(shift.comps()[0] <= self.comps()[0]);
        }
        *self - *shift
    }

    fn index_prepend(&self, new_inside: usize) -> (r: Self::Above) {
        let r = [new_inside, *self];
        proof {
            assert(r.comps() =~= seq![new_inside] + self.comps());
        }
        r
    }

    fn index_append(&self, new_outside: usize) -> (r: Self::Above) {
        let r = [*self, new_outside];
        proof {
            assert(r.comps() =~= self.comps().push(new_outside));
        }
        r
    }

    fn index_at(&self, axis: isize) -> (r: usize) {
        *self
    }

    fn index_cut(&self, axis: isize) -> (r: Self::Below) {
        proof {
            assert(self.comps().remove(0) =~= Seq::<usize>::empty());
        }
        ()
    }

    fn to_packed_stride(&self) -> (r: Self) {
        1
    }

    fn is_packed(&self, stride: &Self) -> (r: bool) {
        let r = self.to_packed_stride() == *stride;
        proof {
            if *stride == 1usize {
                assert(stride.comps()[0] == prefix_prod(self.comps(), 0));
            } else {
                assert(stride.comps()[0] != prefix_prod(self.comps(), 0));
            }
        }
        r
    }

    fn flat_len(&self) -> (r: usize) {
        proof {
            reveal_with_fuel(prefix_prod, 3);
            assert(flat_len_of(self.comps()) == 1 * (*self as int));
        }
        *self
    }

    fn flat_index(&self, stride: &Self) -> (r: usize) {
        proof {
            reveal_with_fuel(dot_upto, 7);
            assert(flat_index_of(self.comps(), stride.comps()) == (*self as int) * (*stride
                as int));
            lemma_mul_nonnegative(*self as int, *stride as int);
        }
        *self * *stride
    }

    fn inside(&self) -> (r: usize) {
        *self
    }

    fn outside(&self) -> (r: usize) {
        *self
    }

    fn dim(&self) -> (r: usize) {
        1
    }
}

impl IndexModel for Index2d {
    open spec fn comps(&self) -> Seq<usize> {
        self@
    }

    open spec fn rank() -> nat {
        2
    }

    open spec fn supported() -> bool {
        true
    }

    proof fn comps_rank(&self) {
    }
}

impl ArrayIndex for Index2d {
    type Above = Index3d;

    type Below = Index1d;

    fn zero() -> (r: Self) {
        let r = [0usize, 0];
        proof {
            assert(r.comps()[0] == 0 && r.comps()[1] == 0);
        }
        r
    }

    fn from_nd(nd_shape: Vec<usize>) -> (r: Self) {
        let r = [nd_shape[0], nd_shape[1]];
        proof {
            assert(r.comps() =~= nd_shape@);
        }
        r
    }

    fn to_nd(&self) -> (r: Vec<usize>) {
        let mut r: Vec<usize> = Vec::new();
        r.push(self[0]);
        r.push(self[1]);
        proof {
            assert(r@ =~= self.comps());
        }
        r
    }

    fn index_add(&self, shift: &Self) -> (r: Self) {
        proof {
            assert(self.comps()[0] + shift.comps()[0] <= usize::MAX);
            assert(self.comps()[1] + shift.comps()[1] <= usize::MAX);
        }
        let r = [self[0] + shift[0], self[1] + shift[1]];
        proof {
            assert(r.comps()[0] == self.comps()[0] + shift.comps()[0] && r.comps()[1] == self.comps()[1] + shift.comps()[1]);
        }
        r
    }

    fn index_sub(&self, shift: &Self) -> (r: Self) {
        proof {
            assert(shift.comps()[0] <= self.comps()[0]);
            assert(shift.comps()[1] <= self.comps()[1]);
        }
        let r = [self[0] - shift[0], self[1] - shift[1]];
        proof {
            assert(r.comps()[0] == self.comps()[0] - shift.comps()[0] && r.comps()[1] == self.comps()[1] - shift.comps()[1]);
        }
        r
    }

    fn index_prepend(&self, new_inside: usize) -> (r: Self::Above) {
        let r = [new_inside, self[0], self[1]];
        proof {
            assert(r.comps() =~= seq![new_inside] + self.comps());
        }
        r
    }

    fn index_append(&self, new_outside: usize) -> (r: Self::Above) {
        let r = [self[0], self[1], new_outside];
        proof {
            assert(r.comps() =~= self.comps().push(new_outside));
        }
        r
    }

    fn index_at(&self, axis: isize) -> (r: usize) {
        self[axis as usize]
    }

    fn index_cut(&self, axis: isize) -> (r: Self::Below) {
        match axis {
            0 => {
                let r = self[1];
                proof {
                    assert(self.comps().remove(0) =~= seq![self.comps()[1]]);
                }
                r
            },
            1 => {
                let r = self[0];
                proof {
                    assert(self.comps().remove(1) =~= seq![self.comps()[0]]);
                }
                r
            },
            _ => vstd::pervasive::unreached(),
        }
    }

    fn to_packed_stride(&self) -> (r: Self) {
        proof {
            reveal_with_fuel(prefix_prod, 7);
            assert(prefix_prod(self.comps(), 1) == 1 * (self.comps()[0] as int));
            assert(prefix_prod(self.comps(), 1) <= usize::MAX);
        }
        let s0: usize = 1;
        let s1 = s0 * self[0];
        let r = [s0, s1];
        proof {
            assert(r.comps()[0] == prefix_prod(self.comps(), 0) && r.comps()[1] == prefix_prod(self.comps(), 1));
        }
        r
    }

    fn is_packed(&self, stride: &Self) -> (r: bool) {
        let p = self.to_packed_stride();
        let r0 = p[0] == stride[0];
        let r1 = p[1] == stride[1];
        let r = r0 && r1;
        proof {
            if r {
                assert forall|d: int| 0 <= d < 2 implies stride.comps()[d] == prefix_prod(self.comps(), d) by {
                    if d == 0 {
                        assert(stride.comps()[0] == prefix_prod(self.comps(), 0));
                    } else {
                        assert(stride.comps()[1] == prefix_prod(self.comps(), 1));
                    }
                }
                assert(is_packed_for(self.comps(), stride.comps()));
            } else {
                if !r0 {
                    assert(stride.comps()[0] != prefix_prod(self.comps(), 0));
                } else {
                    assert(stride.comps()[1] != prefix_prod(self.comps(), 1));
                }
                assert(!is_packed_for(self.comps(), stride.comps()));
            }
        }
        r
    }

    fn flat_len(&self) -> (r: usize) {
        proof {
            reveal_with_fuel(prefix_prod, 7);
            assert(prefix_prod(self.comps(), 1) == 1 * (self.comps()[0] as int));
            assert(prefix_prod(self.comps(), 2) == prefix_prod(self.comps(), 1) * (self.comps()[1] as int));
            assert(prefix_prod(self.comps(), 2) <= usize::MAX);
            assert(flat_len_of(self.comps()) == prefix_prod(self.comps(), 2));
        }
        self[0] * self[1]
    }

    fn flat_index(&self, stride: &Self) -> (r: usize) {
        proof {
            reveal_with_fuel(dot_upto, 7);
            assert(flat_index_of(self.comps(), stride.comps()) == (self.comps()[0] as int) * (stride.comps()[0] as int) + (
            self.comps()[1] as int) * (stride.comps()[1] as int));
            lemma_mul_nonnegative(self.comps()[0] as int, stride.comps()[0] as int);
            lemma_mul_nonnegative(self.comps()[1] as int, stride.comps()[1] as int);
        }
        self[0] * stride[0] + self[1] * stride[1]
    }

    fn inside(&self) -> (r: usize) {
        self[0]
    }

    fn outside(&self) -> (r: usize) {
        self[1]
    }

    fn dim(&self) -> (r: usize) {
        2
    }
}

impl IndexModel for Index3d {
    open spec fn comps(&self) -> Seq<usize> {
        self@
    }

    open spec fn rank() -> nat {
        3
    }

    open spec fn supported() -> bool {
        true
    }

    proof fn comps_rank(&self) {
    }
}

impl ArrayIndex for Index3d {
    type Above = Index4d;

    type Below = Index2d;

    fn zero() -> (r: Self) {
        let r = [0usize, 0, 0];
        proof {
            assert(r.comps()[0] == 0 && r.comps()[1] == 0 && r.comps()[2] == 0);
        }
        r
    }

    fn from_nd(nd_shape: Vec<usize>) -> (r: Self) {
        let r = [nd_shape[0], nd_shape[1], nd_shape[2]];
        proof {
            assert(r.comps() =~= nd_shape@);
        }
        r
    }

    fn to_nd(&self) -> (r: Vec<usize>) {
        let mut r: Vec<usize> = Vec::new();
        r.push(self[0]);
        r.push(self[1]);
        r.push(self[2]);
        proof {
            assert(r@ =~= self.comps());
        }
        r
    }

    fn index_add(&self, shift: &Self) -> (r: Self) {
        proof {
            assert(self.comps()[0] + shift.comps()[0] <= usize::MAX);
            assert(self.comps()[1] + shift.comps()[1] <= usize::MAX);
            assert(self.comps()[2] + shift.comps()[2] <= usize::MAX);
        }
        let r = [self[0] + shift[0], self[1] + shift[1], self[2] + shift[2]];
        proof {
            assert(r.comps()[0] == self.comps()[0] + shift.comps()[0] && r.comps()[1] == self.comps()[1] + shift.comps()[1] && r.comps()[2]
                == self.comps()[2] + shift.comps()[2]);
        }
        r
    }

    fn index_sub(&self, shift: &Self) -> (r: Self) {
        proof {
            assert(shift.comps()[0] <= self.comps()[0]);
            assert(shift.comps()[1] <= self.comps()[1]);
            assert(shift.comps()[2] <= self.comps()[2]);
        }
        let r = [self[0] - shift[0], self[1] - shift[1], self[2] - shift[2]];
        proof {
            assert(r.comps()[0] == self.comps()[0] - shift.comps()[0] && r.comps()[1] == self.comps()[1] - shift.comps()[1] && r.comps()[2]
                == self.comps()[2] - shift.comps()[2]);
        }
        r
    }

    fn index_prepend(&self, new_inside: usize) -> (r: Self::Above) {
        let r = [new_inside, self[0], self[1], self[2]];
        proof {
            assert(r.comps() =~= seq![new_inside] + self.comps());
        }
        r
    }

    fn index_append(&self, new_outside: usize) -> (r: Self::Above) {
        let r = [self[0], self[1], self[2], new_outside];
        proof {
            assert(r.comps() =~= self.comps().push(new_outside));
        }
        r
    }

    fn index_at(&self, axis: isize) -> (r: usize) {
        self[axis as usize]
    }

    fn index_cut(&self, axis: isize) -> (r: Self::Below) {
        match axis {
            0 => {
                let r = [self[1], self[2]];
                proof {
                    assert(self.comps().remove(0) =~= r.comps());
                }
                r
            },
            1 => {
                let r = [self[0], self[2]];
                proof {
                    assert(self.comps().remove(1) =~= r.comps());
                }
                r
            },
            2 => {
                let r = [self[0], self[1]];
                proof {
                    assert(self.comps().remove(2) =~= r.comps());
                }
                r
            },
            _ => vstd::pervasive::unreached(),
        }
    }

    fn to_packed_stride(&self) -> (r: Self) {
        proof {
            reveal_with_fuel(prefix_prod, 7);
            assert(prefix_prod(self.comps(), 1) == 1 * (self.comps()[0] as int));
            assert(prefix_prod(self.comps(), 2) == prefix_prod(self.comps(), 1) * (self.comps()[1] as int));
            assert(prefix_prod(self.comps(), 1) <= usize::MAX);
            assert(prefix_prod(self.comps(), 2) <= usize::MAX);
        }
        let s0: usize = 1;
        let s1 = s0 * self[0];
        let s2 = s1 * self[1];
        let r = [s0, s1, s2];
        proof {
            assert(r.comps()[0] == prefix_prod(self.comps(), 0) && r.comps()[1] == prefix_prod(self.comps(), 1) && r.comps()[2]
                == prefix_prod(self.comps(), 2));
        }
        r
    }

    fn is_packed(&self, stride: &Self) -> (r: bool) {
        let p = self.to_packed_stride();
        let r0 = p[0] == stride[0];
        let r1 = p[1] == stride[1];
        let r2 = p[2] == stride[2];
        let r = r0 && r1 && r2;
        proof {
            if r {
                assert forall|d: int| 0 <= d < 3 implies stride.comps()[d] == prefix_prod(self.comps(), d) by {
                    if d == 0 {
                        assert(stride.comps()[0] == prefix_prod(self.comps(), 0));
                    } else if d == 1 {
                        assert(stride.comps()[1] == prefix_prod(self.comps(), 1));
                    } else {
                        assert(stride.comps()[2] == prefix_prod(self.comps(), 2));
                    }
                }
                assert(is_packed_for(self.comps(), stride.comps()));
            } else {
                if !r0 {
                    assert(stride.comps()[0] != prefix_prod(self.comps(), 0));
                } else if !r1 {
                    assert(stride.comps()[1] != prefix_prod(self.comps(), 1));
                } else {
                    assert(stride.comps()[2] != prefix_prod(self.comps(), 2));
                }
                assert(!is_packed_for(self.comps(), stride.comps()));
            }
        }
        r
    }

    fn flat_len(&self) -> (r: usize) {
        proof {
            reveal_with_fuel(prefix_prod, 7);
            assert(prefix_prod(self.comps(), 1) == 1 * (self.comps()[0] as int));
            assert(prefix_prod(self.comps(), 2) == prefix_prod(self.comps(), 1) * (self.comps()[1] as int));
            assert(prefix_prod(self.comps(), 3) == prefix_prod(self.comps(), 2) * (self.comps()[2] as int));
            assert(prefix_prod(self.comps(), 2) <= usize::MAX);
            assert(prefix_prod(self.comps(), 3) <= usize::MAX);
            assert(flat_len_of(self.comps()) == prefix_prod(self.comps(), 3));
        }
        self[0] * self[1] * self[2]
    }

    fn flat_index(&self, stride: &Self) -> (r: usize) {
        proof {
            reveal_with_fuel(dot_upto, 7);
            assert(flat_index_of(self.comps(), stride.comps()) == (self.comps()[0] as int) * (stride.comps()[0] as int) + (
            self.comps()[1] as int) * (stride.comps()[1] as int) + (self.comps()[2] as int) * (stride.comps()[2] as int));
            lemma_mul_nonnegative(self.comps()[0] as int, stride.comps()[0] as int);
            lemma_mul_nonnegative(self.comps()[1] as int, stride.comps()[1] as int);
            lemma_mul_nonnegative(self.comps()[2] as int, stride.comps()[2] as int);
        }
        self[0] * stride[0] + self[1] * stride[1] + self[2] * stride[2]
    }

    fn inside(&self) -> (r: usize) {
        self[0]
    }

    fn outside(&self) -> (r: usize) {
        self[2]
    }

    fn dim(&self) -> (r: usize) {
        3
    }
}

impl IndexModel for Index4d {
    open spec fn comps(&self) -> Seq<usize> {
        self@
    }

    open spec fn rank() -> nat {
        4
    }

    open spec fn supported() -> bool {
        true
    }

    proof fn comps_rank(&self) {
    }
}

impl ArrayIndex for Index4d {
    type Above = Index5d;

    type Below = Index3d;

    fn zero() -> (r: Self) {
        let r = [0usize, 0, 0, 0];
        proof {
            assert(r.comps()[0] == 0 && r.comps()[1] == 0 && r.comps()[2] == 0 && r.comps()[3] == 0);
        }
        r
    }

    fn from_nd(nd_shape: Vec<usize>) -> (r: Self) {
        let r = [nd_shape[0], nd_shape[1], nd_shape[2], nd_shape[3]];
        proof {
            assert(r.comps() =~= nd_shape@);
        }
        r
    }

    fn to_nd(&self) -> (r: Vec<usize>) {
        let mut r: Vec<usize> = Vec::new();
        r.push(self[0]);
        r.push(self[1]);
        r.push(self[2]);
        r.push(self[3]);
        proof {
            assert(r@ =~= self.comps());
        }
        r
    }

    fn index_add(&self, shift: &Self) -> (r: Self) {
        proof {
            assert(self.comps()[0] + shift.comps()[0] <= usize::MAX);
            assert(self.comps()[1] + shift.comps()[1] <= usize::MAX);
            assert(self.comps()[2] + shift.comps()[2] <= usize::MAX);
            assert(self.comps()[3] + shift.comps()[3] <= usize::MAX);
        }
        let r = [self[0] + shift[0], self[1] + shift[1], self[2] + shift[2], self[3] + shift[3]];
        proof {
            assert(r.comps()[0] == self.comps()[0] + shift.comps()[0] && r.comps()[1] == self.comps()[1] + shift.comps()[1] && r.comps()[2]
                == self.comps()[2] + shift.comps()[2] && r.comps()[3] == self.comps()[3] + shift.comps()[3]);
        }
        r
    }

    fn index_sub(&self, shift: &Self) -> (r: Self) {
        proof {
            assert(shift.comps()[0] <= self.comps()[0]);
            assert(shift.comps()[1] <= self.comps()[1]);
            assert(shift.comps()[2] <= self.comps()[2]);
            assert(shift.comps()[3] <= self.comps()[3]);
        }
        let r = [self[0] - shift[0], self[1] - shift[1], self[2] - shift[2], self[3] - shift[3]];
        proof {
            assert(r.comps()[0] == self.comps()[0] - shift.comps()[0] && r.comps()[1] == self.comps()[1] - shift.comps()[1] && r.comps()[2]
                == self.comps()[2] - shift.comps()[2] && r.comps()[3] == self.comps()[3] - shift.comps()[3]);
        }
        r
    }

    fn index_prepend(&self, new_inside: usize) -> (r: Self::Above) {
        let r = [new_inside, self[0], self[1], self[2], self[3]];
        proof {
            assert(r.comps() =~= seq![new_inside] + self.comps());
        }
        r
    }

    fn index_append(&self, new_outside: usize) -> (r: Self::Above) {
        let r = [self[0], self[1], self[2], self[3], new_outside];
        proof {
            assert(r.comps() =~= self.comps().push(new_outside));
        }
        r
    }

    fn index_at(&self, axis: isize) -> (r: usize) {
        self[axis as usize]
    }

    fn index_cut(&self, axis: isize) -> (r: Self::Below) {
        match axis {
            0 => {
                let r = [self[1], self[2], self[3]];
                proof {
                    assert(self.comps().remove(0) =~= r.comps());
                }
                r
            },
            1 => {
                let r = [self[0], self[2], self[3]];
                proof {
                    assert(self.comps().remove(1) =~= r.comps());
                }
                r
            },
            2 => {
                let r = [self[0], self[1], self[3]];
                proof {
                    assert(self.comps().remove(2) =~= r.comps());
                }
                r
            },
            3 => {
                let r = [self[0], self[1], self[2]];
                proof {
                    assert(self.comps().remove(3) =~= r.comps());
                }
                r
            },
            _ => vstd::pervasive::unreached(),
        }
    }

    fn to_packed_stride(&self) -> (r: Self) {
        proof {
            reveal_with_fuel(prefix_prod, 7);
            assert(prefix_prod(self.comps(), 1) == 1 * (self.comps()[0] as int));
            assert(prefix_prod(self.comps(), 2) == prefix_prod(self.comps(), 1) * (self.comps()[1] as int));
            assert(prefix_prod(self.comps(), 3) == prefix_prod(self.comps(), 2) * (self.comps()[2] as int));
            assert(prefix_prod(self.comps(), 1) <= usize::MAX);
            assert(prefix_prod(self.comps(), 2) <= usize::MAX);
            assert(prefix_prod(self.comps(), 3) <= usize::MAX);
        }
        let s0: usize = 1;
        let s1 = s0 * self[0];
        let s2 = s1 * self[1];
        let s3 = s2 * self[2];
        let r = [s0, s1, s2, s3];
        proof {
            assert(r.comps()[0] == prefix_prod(self.comps(), 0) && r.comps()[1] == prefix_prod(self.comps(), 1) && r.comps()[2]
                == prefix_prod(self.comps(), 2) && r.comps()[3] == prefix_prod(self.comps(), 3));
        }
        r
    }

    fn is_packed(&self, stride: &Self) -> (r: bool) {
        let p = self.to_packed_stride();
        let r0 = p[0] == stride[0];
        let r1 = p[1] == stride[1];
        let r2 = p[2] == stride[2];
        let r3 = p[3] == stride[3];
        let r = r0 && r1 && r2 && r3;
        proof {
            if r {
                assert forall|d: int| 0 <= d < 4 implies stride.comps()[d] == prefix_prod(self.comps(), d) by {
                    if d == 0 {
                        assert(stride.comps()[0] == prefix_prod(self.comps(), 0));
                    } else if d == 1 {
                        assert(stride.comps()[1] == prefix_prod(self.comps(), 1));
                    } else if d == 2 {
                        assert(stride.comps()[2] == prefix_prod(self.comps(), 2));
                    } else {
                        assert(stride.comps()[3] == prefix_prod(self.comps(), 3));
                    }
                }
                assert(is_packed_for(self.comps(), stride.comps()));
            } else {
                if !r0 {
                    assert(stride.comps()[0] != prefix_prod(self.comps(), 0));
                } else if !r1 {
                    assert(stride.comps()[1] != prefix_prod(self.comps(), 1));
                } else if !r2 {
                    assert(stride.comps()[2] != prefix_prod(self.comps(), 2));
                } else {
                    assert(stride.comps()[3] != prefix_prod(self.comps(), 3));
                }
                assert(!is_packed_for(self.comps(), stride.comps()));
            }
        }
        r
    }

    fn flat_len(&self) -> (r: usize) {
        proof {
            reveal_with_fuel(prefix_prod, 7);
            assert(prefix_prod(self.comps(), 1) == 1 * (self.comps()[0] as int));
            assert(prefix_prod(self.comps(), 2) == prefix_prod(self.comps(), 1) * (self.comps()[1] as int));
            assert(prefix_prod(self.comps(), 3) == prefix_prod(self.comps(), 2) * (self.comps()[2] as int));
            assert(prefix_prod(self.comps(), 4) == prefix_prod(self.comps(), 3) * (self.comps()[3] as int));
            assert(prefix_prod(self.comps(), 2) <= usize::MAX);
            assert(prefix_prod(self.comps(), 3) <= usize::MAX);
            assert(prefix_prod(self.comps(), 4) <= usize::MAX);
            assert(flat_len_of(self.comps()) == prefix_prod(self.comps(), 4));
        }
        self[0] * self[1] * self[2] * self[3]
    }

    fn flat_index(&self, stride: &Self) -> (r: usize) {
        proof {
            reveal_with_fuel(dot_upto, 7);
            assert(flat_index_of(self.comps(), stride.comps()) == (self.comps()[0] as int) * (stride.comps()[0] as int) + (
            self.comps()[1] as int) * (stride.comps()[1] as int) + (self.comps()[2] as int) * (stride.comps()[2] as int) + (
            self.comps()[3] as int) * (stride.comps()[3] as int));
            lemma_mul_nonnegative(self.comps()[0] as int, stride.comps()[0] as int);
            lemma_mul_nonnegative(self.comps()[1] as int, stride.comps()[1] as int);
            lemma_mul_nonnegative(self.comps()[2] as int, stride.comps()[2] as int);
            lemma_mul_nonnegative(self.comps()[3] as int, stride.comps()[3] as int);
        }
        self[0] * stride[0] + self[1] * stride[1] + self[2] * stride[2] + self[3] * stride[3]
    }

    fn inside(&self) -> (r: usize) {
        self[0]
    }

    fn outside(&self) -> (r: usize) {
        self[3]
    }

    fn dim(&self) -> (r: usize) {
        4
    }
}

impl IndexModel for Index5d {
    open spec fn comps(&self) -> Seq<usize> {
        self@
    }

    open spec fn rank() -> nat {
        5
    }

    open spec fn supported() -> bool {
        true
    }

    proof fn comps_rank(&self) {
    }
}

impl ArrayIndex for Index5d {
    type Above = UnimplIndex;

    type Below = Index4d;

    fn zero() -> (r: Self) {
        let r = [0usize, 0, 0, 0, 0];
        proof {
            assert(r.comps()[0] == 0 && r.comps()[1] == 0 && r.comps()[2] == 0 && r.comps()[3] == 0 && r.comps()[4] == 0);
        }
        r
    }

    fn from_nd(nd_shape: Vec<usize>) -> (r: Self) {
        let r = [nd_shape[0], nd_shape[1], nd_shape[2], nd_shape[3], nd_shape[4]];
        proof {
            assert(r.comps() =~= nd_shape@);
        }
        r
    }

    fn to_nd(&self) -> (r: Vec<usize>) {
        let mut r: Vec<usize> = Vec::new();
        r.push(self[0]);
        r.push(self[1]);
        r.push(self[2]);
        r.push(self[3]);
        r.push(self[4]);
        proof {
            assert(r@ =~= self.comps());
        }
        r
    }

    fn index_add(&self, shift: &Self) -> (r: Self) {
        proof {
            assert(self.comps()[0] + shift.comps()[0] <= usize::MAX);
            assert(self.comps()[1] + shift.comps()[1] <= usize::MAX);
            assert(self.comps()[2] + shift.comps()[2] <= usize::MAX);
            assert(self.comps()[3] + shift.comps()[3] <= usize::MAX);
            assert(self.comps()[4] + shift.comps()[4] <= usize::MAX);
        }
        let r = [
            self[0] + shift[0],
            self[1] + shift[1],
            self[2] + shift[2],
            self[3] + shift[3],
            self[4] + shift[4],
        ];
        proof {
            assert(r.comps()[0] == self.comps()[0] + shift.comps()[0] && r.comps()[1] == self.comps()[1] + shift.comps()[1] && r.comps()[2]
                == self.comps()[2] + shift.comps()[2] && r.comps()[3] == self.comps()[3] + shift.comps()[3] && r.comps()[4] == self.comps()[4]
                + shift.comps()[4]);
        }
        r
    }

    fn index_sub(&self, shift: &Self) -> (r: Self) {
        proof {
            assert(shift.comps()[0] <= self.comps()[0]);
            assert(shift.comps()[1] <= self.comps()[1]);
            assert(shift.comps()[2] <= self.comps()[2]);
            assert(shift.comps()[3] <= self.comps()[3]);
            assert(shift.comps()[4] <= self.comps()[4]);
        }
        let r = [
            self[0] - shift[0],
            self[1] - shift[1],
            self[2] - shift[2],
            self[3] - shift[3],
            self[4] - shift[4],
        ];
        proof {
            assert(r.comps()[0] == self.comps()[0] - shift.comps()[0] && r.comps()[1] == self.comps()[1] - shift.comps()[1] && r.comps()[2]
                == self.comps()[2] - shift.comps()[2] && r.comps()[3] == self.comps()[3] - shift.comps()[3] && r.comps()[4] == self.comps()[4]
                - shift.comps()[4]);
        }
        r
    }

    fn index_prepend(&self, new_inside: usize) -> (r: Self::Above) {
        // the type above rank 5 is the unsupported sentinel, so no caller
        // can reach this
        proof {
            assert(!<UnimplIndex as IndexModel>::supported());
        }
        vstd::pervasive::unreached()
    }

    fn index_append(&self, new_outside: usize) -> (r: Self::Above) {
        // the type above rank 5 is the unsupported sentinel, so no caller
        // can reach this
        proof {
            assert(!<UnimplIndex as IndexModel>::supported());
        }
        vstd::pervasive::unreached()
    }

    fn index_at(&self, axis: isize) -> (r: usize) {
        self[axis as usize]
    }

    fn index_cut(&self, axis: isize) -> (r: Self::Below) {
        match axis {
            0 => {
                let r = [self[1], self[2], self[3], self[4]];
                proof {
                    assert(self.comps().remove(0) =~= r.comps());
                }
                r
            },
            1 => {
                let r = [self[0], self[2], self[3], self[4]];
                proof {
                    assert(self.comps().remove(1) =~= r.comps());
                }
                r
            },
            2 => {
                let r = [self[0], self[1], self[3], self[4]];
                proof {
                    assert(self.comps().remove(2) =~= r.comps());
                }
                r
            },
            3 => {
                let r = [self[0], self[1], self[2], self[4]];
                proof {
                    assert(self.comps().remove(3) =~= r.comps());
                }
                r
            },
            4 => {
                let r = [self[0], self[1], self[2], self[3]];
                proof {
                    assert(self.comps().remove(4) =~= r.comps());
                }
                r
            },
            _ => vstd::pervasive::unreached(),
        }
    }

    fn to_packed_stride(&self) -> (r: Self) {
        proof {
            reveal_with_fuel(prefix_prod, 7);
            assert(prefix_prod(self.comps(), 1) == 1 * (self.comps()[0] as int));
            assert(prefix_prod(self.comps(), 2) == prefix_prod(self.comps(), 1) * (self.comps()[1] as int));
            assert(prefix_prod(self.comps(), 3) == prefix_prod(self.comps(), 2) * (self.comps()[2] as int));
            assert(prefix_prod(self.comps(), 4) == prefix_prod(self.comps(), 3) * (self.comps()[3] as int));
            assert(prefix_prod(self.comps(), 1) <= usize::MAX);
            assert(prefix_prod(self.comps(), 2) <= usize::MAX);
            assert(prefix_prod(self.comps(), 3) <= usize::MAX);
            assert(prefix_prod(self.comps(), 4) <= usize::MAX);
        }
        let s0: usize = 1;
        let s1 = s0 * self[0];
        let s2 = s1 * self[1];
        let s3 = s2 * self[2];
        let s4 = s3 * self[3];
        let r = [s0, s1, s2, s3, s4];
        proof {
            assert(r.comps()[0] == prefix_prod(self.comps(), 0) && r.comps()[1] == prefix_prod(self.comps(), 1) && r.comps()[2]
                == prefix_prod(self.comps(), 2) && r.comps()[3] == prefix_prod(self.comps(), 3) && r.comps()[4] == prefix_prod(
                self.comps(),
                4,
            ));
        }
        r
    }

    fn is_packed(&self, stride: &Self) -> (r: bool) {
        let p = self.to_packed_stride();
        let r0 = p[0] == stride[0];
        let r1 = p[1] == stride[1];
        let r2 = p[2] == stride[2];
        let r3 = p[3] == stride[3];
        let r4 = p[4] == stride[4];
        let r = r0 && r1 && r2 && r3 && r4;
        proof {
            if r {
                assert forall|d: int| 0 <= d < 5 implies stride.comps()[d] == prefix_prod(self.comps(), d) by {
                    if d == 0 {
                        assert(stride.comps()[0] == prefix_prod(self.comps(), 0));
                    } else if d == 1 {
                        assert(stride.comps()[1] == prefix_prod(self.comps(), 1));
                    } else if d == 2 {
                        assert(stride.comps()[2] == prefix_prod(self.comps(), 2));
                    } else if d == 3 {
                        assert(stride.comps()[3] == prefix_prod(self.comps(), 3));
                    } else {
                        assert(stride.comps()[4] == prefix_prod(self.comps(), 4));
                    }
                }
                assert(is_packed_for(self.comps(), stride.comps()));
            } else {
                if !r0 {
                    assert(stride.comps()[0] != prefix_prod(self.comps(), 0));
                } else if !r1 {
                    assert(stride.comps()[1] != prefix_prod(self.comps(), 1));
                } else if !r2 {
                    assert(stride.comps()[2] != prefix_prod(self.comps(), 2));
                } else if !r3 {
                    assert(stride.comps()[3] != prefix_prod(self.comps(), 3));
                } else {
                    assert(stride.comps()[4] != prefix_prod(self.comps(), 4));
                }
                assert(!is_packed_for(self.comps(), stride.comps()));
            }
        }
        r
    }

    fn flat_len(&self) -> (r: usize) {
        proof {
            reveal_with_fuel(prefix_prod, 7);
            assert(prefix_prod(self.comps(), 1) == 1 * (self.comps()[0] as int));
            assert(prefix_prod(self.comps(), 2) == prefix_prod(self.comps(), 1) * (self.comps()[1] as int));
            assert(prefix_prod(self.comps(), 3) == prefix_prod(self.comps(), 2) * (self.comps()[2] as int));
            assert(prefix_prod(self.comps(), 4) == prefix_prod(self.comps(), 3) * (self.comps()[3] as int));
            assert(prefix_prod(self.comps(), 5) == prefix_prod(self.comps(), 4) * (self.comps()[4] as int));
            assert(prefix_prod(self.comps(), 2) <= usize::MAX);
            assert(prefix_prod(self.comps(), 3) <= usize::MAX);
            assert(prefix_prod(self.comps(), 4) <= usize::MAX);
            assert(prefix_prod(self.comps(), 5) <= usize::MAX);
            assert(flat_len_of(self.comps()) == prefix_prod(self.comps(), 5));
        }
        self[0] * self[1] * self[2] * self[3] * self[4]
    }

    fn flat_index(&self, stride: &Self) -> (r: usize) {
        proof {
            reveal_with_fuel(dot_upto, 7);
            assert(flat_index_of(self.comps(), stride.comps()) == (self.comps()[0] as int) * (stride.comps()[0] as int) + (
            self.comps()[1] as int) * (stride.comps()[1] as int) + (self.comps()[2] as int) * (stride.comps()[2] as int) + (
            self.comps()[3] as int) * (stride.comps()[3] as int) + (self.comps()[4] as int) * (stride.comps()[4] as int));
            lemma_mul_nonnegative(self.comps()[0] as int, stride.comps()[0] as int);
            lemma_mul_nonnegative(self.comps()[1] as int, stride.comps()[1] as int);
            lemma_mul_nonnegative(self.comps()[2] as int, stride.comps()[2] as int);
            lemma_mul_nonnegative(self.comps()[3] as int, stride.comps()[3] as int);
            lemma_mul_nonnegative(self.comps()[4] as int, stride.comps()[4] as int);
        }
        self[0] * stride[0] + self[1] * stride[1] + self[2] * stride[2] + self[3] * stride[3]
            + self[4] * stride[4]
    }

    fn inside(&self) -> (r: usize) {
        self[0]
    }

    fn outside(&self) -> (r: usize) {
        self[4]
    }

    fn dim(&self) -> (r: usize) {
        5
    }
}

impl IndexModel for UnimplIndex {
    open spec fn comps(&self) -> Seq<usize> {
        Seq::empty()
    }

    open spec fn rank() -> nat {
        0
    }

    open spec fn supported() -> bool {
        false
    }

    proof fn comps_rank(&self) {
    }
}

impl ArrayIndex for UnimplIndex {
    type Above = UnimplIndex;

    type Below = UnimplIndex;

    fn zero() -> (r: Self) {
        vstd::pervasive::unreached()
    }

    fn from_nd(nd_shape: Vec<usize>) -> (r: Self) {
        vstd::pervasive::unreached()
    }

    fn to_nd(&self) -> (r: Vec<usize>) {
        vstd::pervasive::unreached()
    }

    fn index_add(&self, shift: &Self) -> (r: Self) {
        vstd::pervasive::unreached()
    }

    fn index_sub(&self, shift: &Self) -> (r: Self) {
        vstd::pervasive::unreached()
    }

    fn index_prepend(&self, new_inside: usize) -> (r: Self::Above) {
        vstd::pervasive::unreached()
    }

    fn index_append(&self, new_outside: usize) -> (r: Self::Above) {
        vstd::pervasive::unreached()
    }

    fn index_at(&self, axis: isize) -> (r: usize) {
        vstd::pervasive::unreached()
    }

    fn index_cut(&self, axis: isize) -> (r: Self::Below) {
        vstd::pervasive::unreached()
    }

    fn to_packed_stride(&self) -> (r: Self) {
        vstd::pervasive::unreached()
    }

    fn is_packed(&self, stride: &Self) -> (r: bool) {
        vstd::pervasive::unreached()
    }

    fn flat_len(&self) -> (r: usize) {
        vstd::pervasive::unreached()
    }

    fn flat_index(&self, stride: &Self) -> (r: usize) {
        vstd::pervasive::unreached()
    }

    fn inside(&self) -> (r: usize) {
        vstd::pervasive::unreached()
    }

    fn outside(&self) -> (r: usize) {
        vstd::pervasive::unreached()
    }

    fn dim(&self) -> (r: usize) {
        vstd::pervasive::unreached()
    }
}

} // verus!
