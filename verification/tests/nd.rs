use array_index::IndexNd;

#[test]
fn from_keeps_the_components() {
    let i = IndexNd::from(vec![2, 3, 4]);
    assert_eq!(i.components, vec![2, 3, 4]);
    assert_eq!(i.dim(), 3);
    assert_eq!(i.ndim(), 3);
}

#[test]
fn zero_builds_an_all_zero_index() {
    let z = IndexNd::zero(4);
    assert_eq!(z.components, vec![0, 0, 0, 0]);
    assert_eq!(IndexNd::zero(0).components, Vec::<usize>::new());
}

#[test]
fn default_is_the_empty_index() {
    let d = IndexNd::default();
    assert_eq!(d.dim(), 0);
    assert_eq!(d.components, Vec::<usize>::new());
}

#[test]
fn nd_flat_len_is_the_product() {
    assert_eq!(IndexNd::from(vec![]).flat_len(), 1);
    assert_eq!(IndexNd::from(vec![7]).flat_len(), 7);
    assert_eq!(IndexNd::from(vec![2, 3, 4]).flat_len(), 24);
    assert_eq!(IndexNd::from(vec![2, 0, 4]).flat_len(), 0);
    assert_eq!(IndexNd::from(vec![1, 1, 1, 1, 1, 1, 2]).flat_len(), 2);
}

#[test]
fn nd_index_at_reads_one_component() {
    let i = IndexNd::from(vec![4, 5, 6]);
    assert_eq!(i.index_at(0), 4);
    assert_eq!(i.index_at(2), 6);
}

#[test]
fn nd_packed_stride_follows_the_recurrence() {
    assert_eq!(IndexNd::from(vec![]).to_packed_stride().components, Vec::<usize>::new());
    assert_eq!(IndexNd::from(vec![7]).to_packed_stride().components, vec![1]);
    assert_eq!(IndexNd::from(vec![2, 3, 4]).to_packed_stride().components, vec![1, 2, 6]);
    assert_eq!(
        IndexNd::from(vec![2, 3, 4, 5, 6, 7]).to_packed_stride().components,
        vec![1, 2, 6, 24, 120, 720]
    );
    assert_eq!(IndexNd::from(vec![3, 0, 2]).to_packed_stride().components, vec![1, 3, 0]);
}

#[test]
fn nd_is_zero_only_on_all_zero_components() {
    assert!(IndexNd::from(vec![]).is_zero());
    assert!(IndexNd::from(vec![0, 0, 0]).is_zero());
    assert!(!IndexNd::from(vec![0, 1, 0]).is_zero());
    assert!(!IndexNd::from(vec![2]).is_zero());
}

#[test]
fn nd_is_packed_accepts_exactly_the_packed_stride() {
    let s = IndexNd::from(vec![2, 3, 4]);
    assert!(s.is_packed(&IndexNd::from(vec![1, 2, 6])));
    assert!(!s.is_packed(&IndexNd::from(vec![1, 2, 7])));
    assert!(!s.is_packed(&IndexNd::from(vec![1, 2])));
    assert!(!s.is_packed(&IndexNd::from(vec![1, 2, 6, 24])));
    assert!(IndexNd::from(vec![]).is_packed(&IndexNd::from(vec![])));
}

#[test]
fn nd_inside_and_outside_extents() {
    let s = IndexNd::from(vec![2, 3, 4]);
    assert_eq!(s.inside(), 2);
    assert_eq!(s.outside(), 4);
    let one = IndexNd::from(vec![9]);
    assert_eq!(one.inside(), 9);
    assert_eq!(one.outside(), 9);
}

#[test]
fn splice_partitions_around_an_axis() {
    let s = IndexNd::from(vec![4, 5, 6, 7]);
    let (pre, sel, suf) = s.splice_at(1);
    assert_eq!(pre.components, vec![4]);
    assert_eq!(sel.components, vec![5]);
    assert_eq!(suf.components, vec![6, 7]);
}

#[test]
fn splice_at_axis_zero_has_an_empty_prefix() {
    let s = IndexNd::from(vec![4, 5, 6]);
    let (pre, sel, suf) = s.splice_at(0);
    assert_eq!(pre.components, Vec::<usize>::new());
    assert_eq!(sel.components, vec![4]);
    assert_eq!(suf.components, vec![5, 6]);
}

#[test]
fn splice_at_the_highest_axis_has_an_empty_suffix() {
    let s = IndexNd::from(vec![4, 5, 6]);
    let (pre, sel, suf) = s.splice_at(2);
    assert_eq!(pre.components, vec![4, 5]);
    assert_eq!(sel.components, vec![6]);
    assert_eq!(suf.components, Vec::<usize>::new());
}

#[test]
fn splice_at_the_rank_selects_nothing() {
    let s = IndexNd::from(vec![4, 5, 6]);
    let (pre, sel, suf) = s.splice_at(3);
    assert_eq!(pre.components, vec![4, 5, 6]);
    assert_eq!(sel.components, Vec::<usize>::new());
    assert_eq!(suf.components, Vec::<usize>::new());
}

#[test]
fn splice_parts_reassemble_for_every_axis() {
    let s = IndexNd::from(vec![4, 5, 6, 7, 8]);
    for axis in 0..=5isize {
        let (pre, sel, suf) = s.splice_at(axis);
        let mut joined = pre.components.clone();
        joined.extend(sel.components.iter());
        joined.extend(suf.components.iter());
        assert_eq!(joined, s.components);
        assert_eq!(sel.components.is_empty(), axis == 5);
    }
}

#[test]
fn splice_of_the_empty_index_is_three_empty_parts() {
    let s = IndexNd::from(vec![]);
    let (pre, sel, suf) = s.splice_at(0);
    assert!(pre.components.is_empty());
    assert!(sel.components.is_empty());
    assert!(suf.components.is_empty());
}

#[test]
fn nd_bracket_indexing_reads_components() {
    let i = IndexNd::from(vec![4, 5, 6]);
    assert_eq!(i[0], 4);
    assert_eq!(i[2], 6);
}

#[test]
fn nd_equality_is_structural() {
    assert_eq!(IndexNd::from(vec![1, 2]), IndexNd::from(vec![1, 2]));
    assert_ne!(IndexNd::from(vec![1, 2]), IndexNd::from(vec![2, 1]));
    assert_ne!(IndexNd::from(vec![1, 2]), IndexNd::from(vec![1, 2, 3]));
}
