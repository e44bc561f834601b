//! Index and stride arithmetic for dense multidimensional arrays.
//!
//! An index value is a tuple of non-negative integers, one per axis, and
//! serves interchangeably as a shape (per-axis extents), a stride (per-axis
//! linear step sizes), or a coordinate (a position within a shape). Axis 0 is
//! the innermost, fastest-varying dimension. The library provides one type
//! per fixed rank 0 through 5, sharing the `ArrayIndex` contract, plus the
//! variable-rank `IndexNd`, and range-normalization helpers for slicing.

mod axis;
mod laws;
mod model;
mod nd;
mod ranges;
mod ranks;

pub use axis::Ax;
pub use laws::{
    lemma_cut_of_append, lemma_cut_of_prepend, lemma_flat_index_in_range,
    lemma_flat_index_injective, lemma_flat_index_surjective, lemma_flat_len_rank0,
    lemma_flat_len_zero_component, lemma_is_packed_exact, lemma_packed_stride_is_packed,
    lemma_splice_reassemble, lemma_stride_append_packed_extends,
};
pub use model::{
    dot_upto, flat_index_of, flat_len_of, in_shape, inside_of, is_packed_for, outside_of,
    prefix_prod, prods_fit,
};
pub use nd::IndexNd;
pub use ranks::{
    ArrayIndex, Index0d, Index1d, Index2d, Index3d, Index4d, Index5d, IndexModel, UnimplIndex,
};
pub use ranges::{
    end_of_bound, range2idxs_1d, range2idxs_2d, range2idxs_3d, range2idxs_4d, start_of_bound,
    IdxBound, IdxRange,
};
