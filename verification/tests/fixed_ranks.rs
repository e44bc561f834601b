use array_index::{ArrayIndex, Ax, Index0d, Index2d, Index3d, Index5d, UnimplIndex};

#[test]
fn zero_of_each_rank() {
    assert_eq!(<Index0d as ArrayIndex>::zero(), ());
    assert_eq!(<usize as ArrayIndex>::zero(), 0);
    assert_eq!(<[usize; 2] as ArrayIndex>::zero(), [0, 0]);
    assert_eq!(<[usize; 3] as ArrayIndex>::zero(), [0, 0, 0]);
    assert_eq!(<[usize; 4] as ArrayIndex>::zero(), [0, 0, 0, 0]);
    assert_eq!(<[usize; 5] as ArrayIndex>::zero(), [0, 0, 0, 0, 0]);
}

#[test]
fn from_nd_and_to_nd_round_trip() {
    assert_eq!(<Index0d as ArrayIndex>::from_nd(vec![]), ());
    assert_eq!(<usize as ArrayIndex>::from_nd(vec![7]), 7);
    assert_eq!(<[usize; 2] as ArrayIndex>::from_nd(vec![2, 3]), [2, 3]);
    assert_eq!(<[usize; 5] as ArrayIndex>::from_nd(vec![1, 2, 3, 4, 5]), [1, 2, 3, 4, 5]);
    assert_eq!([2usize, 3].to_nd(), vec![2, 3]);
    assert_eq!(().to_nd(), Vec::<usize>::new());
    assert_eq!(9usize.to_nd(), vec![9]);
    assert_eq!([1usize, 2, 3, 4].to_nd(), vec![1, 2, 3, 4]);
}

#[test]
fn to_nd_as_variable_rank_index() {
    assert_eq!([2usize, 3, 4]._to_nd().components, vec![2, 3, 4]);
}

#[test]
fn dim_of_each_rank() {
    assert_eq!(().dim(), 0);
    assert_eq!(5usize.dim(), 1);
    assert_eq!([1usize, 2].dim(), 2);
    assert_eq!([1usize, 2, 3].dim(), 3);
    assert_eq!([1usize, 2, 3, 4].dim(), 4);
    assert_eq!([1usize, 2, 3, 4, 5].dim(), 5);
    assert_eq!([1usize, 2, 3].ndim(), 3);
}

#[test]
fn index_add_and_sub_are_component_wise() {
    assert_eq!(().index_add(&()), ());
    assert_eq!(4usize.index_add(&3), 7);
    assert_eq!(4usize.index_sub(&3), 1);
    assert_eq!([1usize, 2].index_add(&[10, 20]), [11, 22]);
    assert_eq!([11usize, 22].index_sub(&[10, 20]), [1, 2]);
    assert_eq!([1usize, 2, 3].index_add(&[4, 5, 6]), [5, 7, 9]);
    assert_eq!([5usize, 7, 9].index_sub(&[4, 5, 6]), [1, 2, 3]);
    assert_eq!([1usize, 2, 3, 4].index_add(&[1, 1, 1, 1]), [2, 3, 4, 5]);
    assert_eq!([1usize, 2, 3, 4, 5].index_add(&[1, 0, 1, 0, 1]), [2, 2, 4, 4, 6]);
    assert_eq!([1usize, 2, 3, 4, 5].index_sub(&[1, 0, 1, 0, 1]), [0, 2, 2, 4, 4]);
}

#[test]
fn prepend_sets_the_new_axis_zero() {
    assert_eq!(().index_prepend(9), 9);
    assert_eq!(7usize.index_prepend(9), [9, 7]);
    assert_eq!([1usize, 2].index_prepend(9), [9, 1, 2]);
    assert_eq!([1usize, 2, 3].index_prepend(9), [9, 1, 2, 3]);
    assert_eq!([1usize, 2, 3, 4].index_prepend(9), [9, 1, 2, 3, 4]);
}

#[test]
fn append_sets_the_new_highest_axis() {
    assert_eq!(().index_append(9), 9);
    assert_eq!(7usize.index_append(9), [7, 9]);
    assert_eq!([1usize, 2].index_append(9), [1, 2, 9]);
    assert_eq!([1usize, 2, 3].index_append(9), [1, 2, 3, 9]);
    assert_eq!([1usize, 2, 3, 4].index_append(9), [1, 2, 3, 4, 9]);
}

#[test]
fn index_at_reads_one_component() {
    assert_eq!(7usize.index_at(0), 7);
    assert_eq!([4usize, 5].index_at(1), 5);
    assert_eq!([4usize, 5, 6].index_at(2), 6);
    assert_eq!([4usize, 5, 6, 7, 8].index_at(3), 7);
}

#[test]
fn cut_removes_one_axis_and_keeps_order() {
    assert_eq!(7usize.index_cut(0), ());
    assert_eq!([4usize, 5].index_cut(0), 5);
    assert_eq!([4usize, 5].index_cut(1), 4);
    assert_eq!([4usize, 5, 6].index_cut(1), [4, 6]);
    assert_eq!([4usize, 5, 6, 7].index_cut(2), [4, 5, 7]);
    assert_eq!([4usize, 5, 6, 7, 8].index_cut(0), [5, 6, 7, 8]);
    assert_eq!([4usize, 5, 6, 7, 8].index_cut(4), [4, 5, 6, 7]);
}

#[test]
fn cut_on_rank_zero_returns_rank_zero_unchanged() {
    assert_eq!(().index_cut(0), ());
    assert_eq!(().index_cut(3), ());
}

#[test]
fn append_then_cut_recovers_the_original() {
    let s: Index3d = [4, 5, 6];
    assert_eq!(s.index_append(9).index_cut(3), s);
    let t: Index2d = [1, 2];
    assert_eq!(t.index_append(9).index_cut(2), t);
    assert_eq!(7usize.index_append(9).index_cut(1), 7);
}

#[test]
fn prepend_then_cut_at_zero_recovers_the_original() {
    let s: Index3d = [4, 5, 6];
    assert_eq!(s.index_prepend(9).index_cut(0), s);
    assert_eq!(7usize.index_prepend(9).index_cut(0), 7);
    assert_eq!(().index_prepend(9).index_cut(0), ());
}

#[test]
fn packed_stride_follows_the_recurrence() {
    assert_eq!(().to_packed_stride(), ());
    assert_eq!(7usize.to_packed_stride(), 1);
    assert_eq!([2usize, 3].to_packed_stride(), [1, 2]);
    assert_eq!([2usize, 3, 4].to_packed_stride(), [1, 2, 6]);
    assert_eq!([2usize, 3, 4, 5].to_packed_stride(), [1, 2, 6, 24]);
    assert_eq!([2usize, 3, 4, 5, 6].to_packed_stride(), [1, 2, 6, 24, 120]);
}

#[test]
fn is_packed_accepts_exactly_the_packed_stride() {
    assert!(().is_packed(&()));
    assert!(7usize.is_packed(&1));
    assert!(!7usize.is_packed(&7));
    let s: Index3d = [2, 3, 4];
    assert!(s.is_packed(&[1, 2, 6]));
    assert!(!s.is_packed(&[1, 2, 7]));
    assert!(!s.is_packed(&[0, 2, 6]));
    assert!(!s.is_packed(&[1, 3, 6]));
    let f: Index5d = [2, 3, 4, 5, 6];
    assert!(f.is_packed(&[1, 2, 6, 24, 120]));
    assert!(!f.is_packed(&[1, 2, 6, 24, 121]));
}

#[test]
fn flat_len_is_the_product_of_extents() {
    assert_eq!(().flat_len(), 1);
    assert_eq!(7usize.flat_len(), 7);
    assert_eq!([2usize, 3].flat_len(), 6);
    assert_eq!([2usize, 3, 4].flat_len(), 24);
    assert_eq!([2usize, 3, 4, 5].flat_len(), 120);
    assert_eq!([2usize, 3, 4, 5, 6].flat_len(), 720);
}

#[test]
fn flat_len_with_a_zero_extent_is_zero() {
    assert_eq!(0usize.flat_len(), 0);
    assert_eq!([2usize, 0].flat_len(), 0);
    assert_eq!([0usize, 3, 4].flat_len(), 0);
    assert_eq!([2usize, 3, 0, 5].flat_len(), 0);
    assert_eq!([2usize, 3, 4, 5, 0].flat_len(), 0);
}

#[test]
fn flat_index_is_the_dot_product() {
    assert_eq!(().flat_index(&()), 0);
    assert_eq!(3usize.flat_index(&1), 3);
    assert_eq!([1usize, 2].flat_index(&[1, 2]), 5);
    assert_eq!([1usize, 2, 3].flat_index(&[1, 2, 6]), 23);
    assert_eq!([1usize, 0, 1, 0].flat_index(&[1, 2, 6, 24]), 7);
    assert_eq!([1usize, 1, 1, 1, 1].flat_index(&[1, 2, 6, 24, 120]), 153);
}

#[test]
fn inside_and_outside_extents() {
    assert_eq!(().inside(), 1);
    assert_eq!(().outside(), 1);
    assert_eq!(7usize.inside(), 7);
    assert_eq!(7usize.outside(), 7);
    assert_eq!([2usize, 3].inside(), 2);
    assert_eq!([2usize, 3].outside(), 3);
    assert_eq!([2usize, 3, 4, 5, 6].inside(), 2);
    assert_eq!([2usize, 3, 4, 5, 6].outside(), 6);
}

#[test]
fn stride_append_packed_extends_a_packed_stride() {
    let s: Index2d = [2, 3];
    let p = s.to_packed_stride();
    // handing the shape's outer extent appends the full cell count, the
    // packed stride of [2, 3, e] for every new extent e
    assert_eq!(p.stride_append_packed(s.outside()), [1, 2, 6]);
    assert_eq!([2usize, 3, 4].to_packed_stride(), [1, 2, 6]);
    let q = [2usize, 3, 4].to_packed_stride();
    assert_eq!(q.stride_append_packed(4), [1, 2, 6, 24]);
    assert_eq!(().to_packed_stride().stride_append_packed(1), 1);
}

#[test]
fn axis_wrapper_carries_its_integer() {
    let a = Ax(3);
    assert_eq!(a.0, 3);
    assert_eq!(a, Ax(3));
    assert_ne!(a, Ax(4));
}

#[test]
fn sentinel_values_compare_equal() {
    let u = UnimplIndex;
    assert_eq!(u, u.clone());
}
