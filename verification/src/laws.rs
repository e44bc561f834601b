use crate::model::{
    dot_upto, flat_index_of, flat_len_of, in_shape, is_packed_for, outside_of, prefix_prod,
};
use crate::model::{lemma_prefix_prod_agrees, lemma_prefix_prod_pos};
use vstd::arithmetic::div_mod::{
    lemma_div_pos_is_pos, lemma_fundamental_div_mod, lemma_mod_division_less_than_divisor,
    lemma_multiply_divide_lt,
};
use vstd::prelude::*;

verus! {

/// The flat offset accumulated over the first `d` axes of coordinate `c`
/// when the stride is the packed one of shape `s`.
spec fn packed_val(c: Seq<usize>, s: Seq<usize>, d: int) -> int
    decreases d,
{
    if d <= 0 {
        0
    } else {
        packed_val(c, s, d - 1) + c[d - 1] * prefix_prod(s, d - 1)
    }
}

proof fn lemma_dot_packed(c: Seq<usize>, t: Seq<usize>, s: Seq<usize>, d: int)
    requires
        is_packed_for(s, t),
        0 <= d <= s.len(),
    ensures
        dot_upto(c, t, d) == packed_val(c, s, d),
    decreases d,
{
    if d > 0 {
        lemma_dot_packed(c, t, s, d - 1);
        assert(t[d - 1] == prefix_prod(s, d - 1));
    }
}

proof fn lemma_packed_val_agrees(c1: Seq<usize>, c2: Seq<usize>, s: Seq<usize>, d: int)
    requires
        forall|i: int| 0 <= i < d ==> c1[i] == c2[i],
    ensures
        packed_val(c1, s, d) == packed_val(c2, s, d),
    decreases d,
{
    if d > 0 {
        lemma_packed_val_agrees(c1, c2, s, d - 1);
    }
}

proof fn lemma_packed_val_bounds(c: Seq<usize>, s: Seq<usize>, d: int)
    requires
        in_shape(c, s),
        0 <= d <= s.len(),
    ensures
        0 <= packed_val(c, s, d) < prefix_prod(s, d),
    decreases d,
{
    if d == 0 {
        assert(prefix_prod(s, 0) == 1);
    } else {
        lemma_packed_val_bounds(c, s, d - 1);
        let p = prefix_prod(s, d - 1);
        let x = c[d - 1] as int;
        let e = s[d - 1] as int;
        assert forall|i: int| 0 <= i < s.len() implies s[i] >= 1 by {
            assert(c[i] < s[i]);
        }
        lemma_prefix_prod_pos(s, d - 1);
        assert(x * p >= 0) by (nonlinear_arith)
            requires
                x >= 0,
                p >= 0,
        ;
        assert(x * p <= e * p - p) by (nonlinear_arith)
            requires
                x <= e - 1,
                p >= 0,
        ;
        assert(prefix_prod(s, d) == p * e);
        assert(p * e == e * p) by (nonlinear_arith);
    }
}

proof fn lemma_packed_val_inj(c1: Seq<usize>, c2: Seq<usize>, s: Seq<usize>, d: int)
    requires
        in_shape(c1, s),
        in_shape(c2, s),
        0 <= d <= s.len(),
        packed_val(c1, s, d) == packed_val(c2, s, d),
    ensures
        forall|i: int| 0 <= i < d ==> c1[i] == c2[i],
    decreases d,
{
    if d > 0 {
        let p = prefix_prod(s, d - 1);
        let x1 = c1[d - 1] as int;
        let x2 = c2[d - 1] as int;
        lemma_packed_val_bounds(c1, s, d - 1);
        lemma_packed_val_bounds(c2, s, d - 1);
        if x1 != x2 {
            if x1 > x2 {
                assert(x1 * p - x2 * p >= p) by (nonlinear_arith)
                    requires
                        x1 >= x2 + 1,
                        p >= 0,
                ;
            } else {
                assert(x2 * p - x1 * p >= p) by (nonlinear_arith)
                    requires
                        x2 >= x1 + 1,
                        p >= 0,
                ;
            }
            assert(false);
        }
        assert(x1 * p == x2 * p);
        lemma_packed_val_inj(c1, c2, s, d - 1);
        assert forall|i: int| 0 <= i < d implies c1[i] == c2[i] by {
            if i == d - 1 {
                assert(c1[d - 1] as int == c2[d - 1] as int);
            }
        }
    }
}

/// The coordinate whose flat offset over the first `d` axes of `s`, under
/// the packed stride, is `n`; built outermost-first by repeated division.
spec fn unflatten(n: int, s: Seq<usize>, d: int) -> Seq<usize>
    decreases d,
{
    if d <= 0 {
        Seq::empty()
    } else {
        unflatten(n % prefix_prod(s, d - 1), s, d - 1).push((n / prefix_prod(s, d - 1)) as usize)
    }
}

proof fn lemma_unflatten(n: int, s: Seq<usize>, d: int)
    requires
        0 <= d <= s.len(),
        forall|i: int| 0 <= i < d ==> s[i] >= 1,
        0 <= n < prefix_prod(s, d),
    ensures
        unflatten(n, s, d).len() == d,
        forall|i: int| 0 <= i < d ==> unflatten(n, s, d)[i] < s[i],
        packed_val(unflatten(n, s, d), s, d) == n,
    decreases d,
{
    if d == 0 {
        assert(prefix_prod(s, 0) == 1);
    } else {
        let p = prefix_prod(s, d - 1);
        let e = s[d - 1] as int;
        lemma_prefix_prod_pos(s, d - 1);
        let q = n / p;
        let rem = n % p;
        lemma_mod_division_less_than_divisor(n, p);
        lemma_div_pos_is_pos(n, p);
        assert(prefix_prod(s, d) == p * e);
        lemma_multiply_divide_lt(n, p, e);
        lemma_unflatten(rem, s, d - 1);
        let cpre = unflatten(rem, s, d - 1);
        let c = unflatten(n, s, d);
        assert(c == cpre.push(q as usize));
        lemma_packed_val_agrees(c, cpre, s, d - 1);
        lemma_fundamental_div_mod(n, p);
        assert((q as usize) as int == q);
        assert(packed_val(c, s, d) == packed_val(c, s, d - 1) + (c[d - 1] as int) * p);
        assert((c[d - 1] as int) * p == q * p);
        assert(q * p == p * q) by (nonlinear_arith);
        assert forall|i: int| 0 <= i < d implies unflatten(n, s, d)[i] < s[i] by {
            if i < d - 1 {
                assert(cpre[i] < s[i]);
            } else {
                assert(c[d - 1] == q as usize);
            }
        }
    }
}

proof fn lemma_prefix_prod_zero(s: Seq<usize>, i: int, d: int)
    requires
        0 <= i < d,
        s[i] == 0,
    ensures
        prefix_prod(s, d) == 0,
    decreases d,
{
    if d == i + 1 {
        assert(prefix_prod(s, d - 1) * (s[i] as int) == 0) by (nonlinear_arith)
            requires
                s[i] as int == 0,
        ;
    } else {
        lemma_prefix_prod_zero(s, i, d - 1);
        assert(prefix_prod(s, d - 1) * (s[d - 1] as int) == 0) by (nonlinear_arith)
            requires
                prefix_prod(s, d - 1) == 0,
        ;
    }
}

/// Law: under the packed stride of shape `s`, the flat offset of every
/// coordinate inside `s` lies within `[0, flat_len_of(s))`.
pub proof fn lemma_flat_index_in_range(c: Seq<usize>, s: Seq<usize>, t: Seq<usize>)
    requires
        in_shape(c, s),
        is_packed_for(s, t),
    ensures
        0 <= flat_index_of(c, t) < flat_len_of(s),
{
    lemma_dot_packed(c, t, s, s.len() as int);
    lemma_packed_val_bounds(c, s, s.len() as int);
}

/// Law: under the packed stride of shape `s`, two coordinates inside `s`
/// with the same flat offset are the same coordinate: the offset map is
/// injective on the shape.
pub proof fn lemma_flat_index_injective(
    c1: Seq<usize>,
    c2: Seq<usize>,
    s: Seq<usize>,
    t: Seq<usize>,
)
    requires
        in_shape(c1, s),
        in_shape(c2, s),
        is_packed_for(s, t),
        flat_index_of(c1, t) == flat_index_of(c2, t),
    ensures
        c1 == c2,
{
    lemma_dot_packed(c1, t, s, s.len() as int);
    lemma_dot_packed(c2, t, s, s.len() as int);
    lemma_packed_val_inj(c1, c2, s, s.len() as int);
    assert(c1 =~= c2);
}

/// Law: under the packed stride of shape `s`, every offset in
/// `[0, flat_len_of(s))` is the flat offset of some coordinate inside `s`:
/// the offset map is onto that range.
pub proof fn lemma_flat_index_surjective(n: int, s: Seq<usize>, t: Seq<usize>)
    requires
        is_packed_for(s, t),
        0 <= n < flat_len_of(s),
    ensures
        exists|c: Seq<usize>| #[trigger] in_shape(c, s) && flat_index_of(c, t) == n,
{
    let len = s.len() as int;
    assert forall|i: int| 0 <= i < len implies s[i] >= 1 by {
        if s[i] == 0 {
            lemma_prefix_prod_zero(s, i, len);
        }
    }
    lemma_unflatten(n, s, len);
    let c = unflatten(n, s, len);
    lemma_dot_packed(c, t, s, len);
    assert(in_shape(c, s));
    assert(flat_index_of(c, t) == n);
}

/// Law: a stride of the right rank that agrees with the packed-stride
/// recurrence at every axis is packed for `s`.
pub proof fn lemma_packed_stride_is_packed(s: Seq<usize>, t: Seq<usize>)
    requires
        t.len() == s.len(),
        forall|d: int| 0 <= d < s.len() ==> t[d] == prefix_prod(s, d),
    ensures
        is_packed_for(s, t),
{
}

/// Law: a stride that deviates at any single axis from a packed stride of
/// `s` is not packed for `s`: packedness is exact equality, never a
/// compatible approximation.
pub proof fn lemma_is_packed_exact(s: Seq<usize>, t1: Seq<usize>, t2: Seq<usize>, d: int)
    requires
        is_packed_for(s, t1),
        t2.len() == t1.len(),
        0 <= d < t1.len(),
        t2[d] != t1[d],
    ensures
        !is_packed_for(s, t2),
{
    assert(t1[d] == prefix_prod(s, d));
}

/// Law: appending a new outermost component and cutting at that appended
/// axis recovers the original index.
pub proof fn lemma_cut_of_append(s: Seq<usize>, x: usize)
    ensures
        s.push(x).remove(s.len() as int) == s,
{
    assert(s.push(x).remove(s.len() as int) =~= s);
}

/// Law: prepending a new innermost component and cutting at axis 0
/// recovers the original index.
pub proof fn lemma_cut_of_prepend(s: Seq<usize>, x: usize)
    ensures
        (seq![x] + s).remove(0) == s,
{
    assert((seq![x] + s).remove(0) =~= s);
}

/// Law: the flat length of the rank-0 shape is 1, the empty product.
pub proof fn lemma_flat_len_rank0(s: Seq<usize>)
    requires
        s.len() == 0,
    ensures
        flat_len_of(s) == 1,
{
}

/// Law: a shape with extent 0 on any axis addresses no cells.
pub proof fn lemma_flat_len_zero_component(s: Seq<usize>, i: int)
    requires
        0 <= i < s.len(),
        s[i] == 0,
    ensures
        flat_len_of(s) == 0,
{
    lemma_prefix_prod_zero(s, i, s.len() as int);
}

/// Law: handing `stride_append_packed` a shape's own outermost extent
/// extends that shape's packed stride to the packed stride of the shape
/// with one more extent appended, whatever the appended extent is.
pub proof fn lemma_stride_append_packed_extends(s: Seq<usize>, t: Seq<usize>, v: usize, e: usize)
    requires
        is_packed_for(s, t),
        v == outside_of(t) * outside_of(s),
    ensures
        is_packed_for(s.push(e), t.push(v)),
{
    let n = s.len() as int;
    assert forall|d: int| 0 <= d <= n implies prefix_prod(s.push(e), d) == prefix_prod(s, d) by {
        lemma_prefix_prod_agrees(s.push(e), s, d);
    }
    if n == 0 {
        assert(prefix_prod(s, 0) == 1);
        assert(v == 1);
    } else {
        assert(t[n - 1] == prefix_prod(s, n - 1));
        assert(prefix_prod(s, n) == prefix_prod(s, n - 1) * (s[n - 1] as int));
        assert(v == prefix_prod(s, n));
    }
    assert forall|d: int| 0 <= d < n + 1 implies t.push(v)[d] == prefix_prod(s.push(e), d) by {
        if d < n {
            assert(t.push(v)[d] == t[d]);
        } else {
            assert(t.push(v)[d] == v);
            assert(prefix_prod(s, 0) == 1);
        }
    }
}

/// Law: the prefix, selection and suffix that `splice_at` returns
/// concatenate, in order, back to the original components; within the
/// accepted axes, the selection is empty exactly at `axis == s.len()`, the
/// one axis that holds no component.
pub proof fn lemma_splice_reassemble(s: Seq<usize>, axis: int)
    requires
        0 <= axis <= s.len(),
    ensures
        axis < s.len() ==> s.subrange(0, axis) + seq![s[axis]] + s.subrange(
            axis + 1,
            s.len() as int,
        ) == s,
        axis == s.len() ==> s.subrange(0, axis) + Seq::<usize>::empty() + Seq::<usize>::empty()
            == s,
{
    if axis < s.len() {
        assert(s.subrange(0, axis) + seq![s[axis]] + s.subrange(axis + 1, s.len() as int) =~= s);
    } else {
        assert(s.subrange(0, axis) + Seq::<usize>::empty() + Seq::<usize>::empty() =~= s);
    }
}

} // verus!
