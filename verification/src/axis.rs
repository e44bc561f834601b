use vstd::prelude::*;

verus! {

/// A thin typed wrapper marking an integer as an axis index, for call-site
/// clarity only; it carries no behavior.
#[derive(Clone, Copy, PartialEq, Eq, Hash, Debug)]
pub struct Ax(pub usize);

} // verus!
