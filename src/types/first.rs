//! A merge that keeps the first value.
use vstd::prelude::*;

use crate::error::{Error, ErrorView};
use crate::merge::Merge;

verus! {

/// A merge that keeps the value of `self` and discards the other one.
///
/// The opposite of this is [`crate::types::Last`].
#[derive(Debug, Clone, Copy, PartialEq, Eq, Hash, Default)]
pub struct First<T>(pub T);

impl<T> Merge for First<T> {
    open spec fn merge_spec(self, other: Self, r: Result<Self, ErrorView>) -> bool {
        r == Ok::<Self, ErrorView>(self)
    }

    fn merge_ref(&mut self, other: Self) -> (r: Result<(), Error>) {
        Ok(())
    }
}

} // verus!
