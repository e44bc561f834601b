//! Exhaustive checks, over shapes with small extents, that the flat offset
//! under the packed stride maps the coordinates of a shape one-to-one onto
//! `0..flat_len`.

use array_index::ArrayIndex;

fn mark(hits: &mut Vec<bool>, offset: usize) {
    assert!(offset < hits.len(), "offset {} out of range {}", offset, hits.len());
    assert!(!hits[offset], "offset {} hit twice", offset);
    hits[offset] = true;
}

#[test]
fn rank0_offsets_cover_the_single_cell() {
    let s = ();
    let stride = s.to_packed_stride();
    assert_eq!(s.flat_len(), 1);
    let mut hits = vec![false; 1];
    mark(&mut hits, s.flat_index(&stride));
    assert!(hits.iter().all(|h| *h));
}

#[test]
fn rank1_offsets_cover_the_cells_once_each() {
    for s in 0usize..4 {
        let stride = s.to_packed_stride();
        let mut hits = vec![false; s.flat_len()];
        for c0 in 0..s {
            mark(&mut hits, c0.flat_index(&stride));
        }
        assert!(hits.iter().all(|h| *h));
    }
}

#[test]
fn rank2_offsets_cover_the_cells_once_each() {
    for e0 in 0usize..4 {
        for e1 in 0usize..4 {
            let s = [e0, e1];
            let stride = s.to_packed_stride();
            let mut hits = vec![false; s.flat_len()];
            for c0 in 0..e0 {
                for c1 in 0..e1 {
                    mark(&mut hits, [c0, c1].flat_index(&stride));
                }
            }
            assert!(hits.iter().all(|h| *h));
        }
    }
}

#[test]
fn rank3_offsets_cover_the_cells_once_each() {
    for e0 in 0usize..4 {
        for e1 in 0usize..4 {
            for e2 in 0usize..4 {
                let s = [e0, e1, e2];
                let stride = s.to_packed_stride();
                let mut hits = vec![false; s.flat_len()];
                for c0 in 0..e0 {
                    for c1 in 0..e1 {
                        for c2 in 0..e2 {
                            mark(&mut hits, [c0, c1, c2].flat_index(&stride));
                        }
                    }
                }
                assert!(hits.iter().all(|h| *h));
            }
        }
    }
}

#[test]
fn rank4_offsets_cover_the_cells_once_each() {
    for e0 in 0usize..3 {
        for e1 in 0usize..3 {
            for e2 in 0usize..3 {
                for e3 in 0usize..3 {
                    let s = [e0, e1, e2, e3];
                    let stride = s.to_packed_stride();
                    let mut hits = vec![false; s.flat_len()];
                    for c0 in 0..e0 {
                        for c1 in 0..e1 {
                            for c2 in 0..e2 {
                                for c3 in 0..e3 {
                                    mark(&mut hits, [c0, c1, c2, c3].flat_index(&stride));
                                }
                            }
                        }
                    }
                    assert!(hits.iter().all(|h| *h));
                }
            }
        }
    }
}

#[test]
fn rank5_offsets_cover_the_cells_once_each() {
    for e0 in 0usize..3 {
        for e1 in 0usize..3 {
            for e2 in 0usize..3 {
                for e3 in 0usize..3 {
                    for e4 in 0usize..3 {
                        let s = [e0, e1, e2, e3, e4];
                        let stride = s.to_packed_stride();
                        let mut hits = vec![false; s.flat_len()];
                        for c0 in 0..e0 {
                            for c1 in 0..e1 {
                                for c2 in 0..e2 {
                                    for c3 in 0..e3 {
                                        for c4 in 0..e4 {
                                            mark(
                                                &mut hits,
                                                [c0, c1, c2, c3, c4].flat_index(&stride),
                                            );
                                        }
                                    }
                                }
                            }
                        }
                        assert!(hits.iter().all(|h| *h));
                    }
                }
            }
        }
    }
}

#[test]
fn perturbing_any_packed_stride_component_is_reported_not_packed() {
    let s = [2usize, 3, 4];
    let packed = s.to_packed_stride();
    assert!(s.is_packed(&packed));
    for d in 0..3 {
        let mut wrong = packed;
        wrong[d] += 1;
        assert!(!s.is_packed(&wrong));
        let mut larger = packed;
        larger[d] *= 2;
        assert!(!s.is_packed(&larger));
    }
}
