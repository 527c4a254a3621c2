//! A merge that keeps the last value.
use vstd::prelude::*;

use crate::error::{Error, ErrorView};
use crate::merge::Merge;

verus! {

/// A merge that adopts the other value.
///
/// The opposite of this is [`crate::types::First`].
#[derive(Debug, Clone, Copy, PartialEq, Eq, Hash, Default)]
pub struct Last<T>(pub T);

impl<T> Merge for Last<T> {
    open spec fn merge_spec(self, other: Self, r: Result<Self, ErrorView>) -> bool {
        r == Ok::<Self, ErrorView>(other)
    }

    fn merge_ref(&mut self, other: Self) -> (r: Result<(), Error>) {
        self.0 = other.0;
        Ok(())
    }
}

} // verus!
