use vstd::arithmetic::mul::lemma_mul_nonnegative;
use vstd::prelude::*;

verus! {

/// Product of the first `d` components of `s`; the empty product is 1.
///
/// For a shape this is the number of cells spanned by axes below `d`, and it
/// is exactly the packed stride of axis `d`.
pub open spec fn prefix_prod(s: Seq<usize>, d: int) -> int
    decreases d,
{
    if d <= 0 {
        1
    } else {
        prefix_prod(s, d - 1) * s[d - 1]
    }
}

/// Number of cells addressed by shape `s`: the product of all components.
pub open spec fn flat_len_of(s: Seq<usize>) -> int {
    prefix_prod(s, s.len() as int)
}

/// Dot product of the first `d` components of coordinate `c` and stride `t`.
pub open spec fn dot_upto(c: Seq<usize>, t: Seq<usize>, d: int) -> int
    decreases d,
{
    if d <= 0 {
        0
    } else {
        dot_upto(c, t, d - 1) + c[d - 1] * t[d - 1]
    }
}

/// Linear offset of coordinate `c` under stride `t`.
pub open spec fn flat_index_of(c: Seq<usize>, t: Seq<usize>) -> int {
    dot_upto(c, t, c.len() as int)
}

/// `t` is exactly the packed stride of shape `s`: same rank, and component
/// `d` equals the product of the shape components at axes below `d`.
pub open spec fn is_packed_for(s: Seq<usize>, t: Seq<usize>) -> bool {
    &&& t.len() == s.len()
    &&& forall|d: int| 0 <= d < s.len() ==> t[d] == prefix_prod(s, d)
}

/// The innermost (axis 0) component; 1 for rank 0 by convention.
pub open spec fn inside_of(s: Seq<usize>) -> int {
    if s.len() == 0 {
        1
    } else {
        s[0] as int
    }
}

/// The outermost (highest axis) component; 1 for rank 0 by convention.
pub open spec fn outside_of(s: Seq<usize>) -> int {
    if s.len() == 0 {
        1
    } else {
        s[s.len() - 1] as int
    }
}

/// Coordinate `c` addresses a cell of shape `s`: same rank and each
/// component strictly below the corresponding extent.
pub open spec fn in_shape(c: Seq<usize>, s: Seq<usize>) -> bool {
    &&& c.len() == s.len()
    &&& forall|i: int| 0 <= i < s.len() ==> c[i] < s[i]
}

/// Every product of the first `d` components, for `d` up to `upto`, fits a
/// `usize`; the machine-limit precondition of the stride and length
/// computations.
pub open spec fn prods_fit(s: Seq<usize>, upto: int) -> bool {
    forall|d: int| 0 <= d <= upto ==> prefix_prod(s, d) <= usize::MAX
}

pub(crate) proof fn lemma_prefix_prod_nonneg(s: Seq<usize>, d: int)
    ensures
        prefix_prod(s, d) >= 0,
    decreases d,
{
    if d > 0 {
        lemma_prefix_prod_nonneg(s, d - 1);
        lemma_mul_nonnegative(prefix_prod(s, d - 1), s[d - 1] as int);
    }
}

pub(crate) proof fn lemma_prefix_prod_pos(s: Seq<usize>, d: int)
    requires
        forall|i: int| 0 <= i < d ==> s[i] >= 1,
    ensures
        prefix_prod(s, d) >= 1,
    decreases d,
{
    if d > 0 {
        lemma_prefix_prod_pos(s, d - 1);
        assert(prefix_prod(s, d - 1) * (s[d - 1] as int) >= 1) by (nonlinear_arith)
            requires
                prefix_prod(s, d - 1) >= 1,
                s[d - 1] as int >= 1,
        ;
    }
}

pub(crate) proof fn lemma_prefix_prod_agrees(s1: Seq<usize>, s2: Seq<usize>, d: int)
    requires
        forall|i: int| 0 <= i < d ==> s1[i] == s2[i],
    ensures
        prefix_prod(s1, d) == prefix_prod(s2, d),
    decreases d,
{
    if d > 0 {
        lemma_prefix_prod_agrees(s1, s2, d - 1);
    }
}

} // verus!
