//! Values that are defined once.
use vstd::prelude::*;

use crate::error::{Error, ErrorView};
use crate::impls::collides;
use crate::merge::Merge;

verus! {

/// An unmergeable value: any merge of two of them collides, whatever the
/// inner type.
#[derive(Debug, Clone, Copy, PartialEq, Eq, Hash, Default)]
pub struct NoMerge<T>(pub T);

impl<T> Merge for NoMerge<T> {
    open spec fn merge_spec(self, other: Self, r: Result<Self, ErrorView>) -> bool {
        collides(r)
    }

    open spec fn left_after(self, other: Self, r: Result<(), ErrorView>, after: Self) -> bool {
        after == self
    }

    fn merge_ref(&mut self, other: Self) -> (r: Result<(), Error>) {
        Err(Error::collision())
    }
}

} // verus!
