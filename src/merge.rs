//! The [`Merge`] trait: how two values of one shape combine.
use vstd::prelude::*;

use crate::error::{Error, ErrorView};

verus! {

/// A merge result over views: the merged value, or what the error holds.
pub open spec fn outcome<T>(r: Result<T, Error>) -> Result<T, ErrorView> {
    match r {
        Ok(v) => Ok(v),
        Err(e) => Err(e@),
    }
}

/// The outcome of an in-place merge that left `v` behind.
pub open spec fn outcome_in_place<T>(r: Result<(), Error>, v: T) -> Result<T, ErrorView> {
    match r {
        Ok(_) => Ok(v),
        Err(e) => Err(e@),
    }
}

/// The result of an in-place merge over views.
pub open spec fn unit_outcome(r: Result<(), Error>) -> Result<(), ErrorView> {
    match r {
        Ok(_) => Ok(()),
        Err(e) => Err(e@),
    }
}

/// A value that may be merged with another of its type.
///
/// There are two ways to merge, which differ only in whether they take `self`
/// by value; both end in an outcome that `merge_spec` admits.
pub trait Merge: Sized {
    /// Whether merging `self` with `other` may end in `r` (the merged value,
    /// or the error). An implementation that states nothing admits every
    /// outcome.
    open spec fn merge_spec(self, other: Self, r: Result<Self, ErrorView>) -> bool {
        true
    }

    /// What an in-place merge of `other` into `before`, ended with `r`, may
    /// leave in `after`, beyond what `merge_spec` says (mostly: what `self`
    /// holds after an error). By default nothing more.
    open spec fn left_after(self, other: Self, r: Result<(), ErrorView>, after: Self) -> bool {
        true
    }

    /// Merges `self` with `other`. The outcome is one that an in-place merge
    /// may end in too: on success the value it may leave, on failure an
    /// error it may give.
    fn merge(self, other: Self) -> (r: Result<Self, Error>)
        ensures
            Self::merge_spec(self, other, outcome(r)),
            match r {
                Ok(v) => self.left_after(other, Ok(()), v),
                Err(e) => exists|s: Self| #[trigger] self.left_after(other, Err(e@), s),
            },
    {
        let mut this = self;
        match this.merge_ref(other) {
            Ok(()) => Ok(this),
            Err(e) => {
                assert(self.left_after(other, Err(e@), this));
                Err(e)
            },
        }
    }

    /// Merges `other` into `self`. After an error, `self` holds what
    /// `left_after` says.
    fn merge_ref(&mut self, other: Self) -> (r: Result<(), Error>)
        ensures
            Self::merge_spec(*old(self), other, outcome_in_place(r, *final(self))),
            old(self).left_after(other, unit_outcome(r), *final(self)),
    ;
}

/// Merges `this` and `other`; the same as `this.merge(other)`.
pub fn merge<T: Merge>(this: T, other: T) -> (r: Result<T, Error>)
    ensures
        T::merge_spec(this, other, outcome(r)),
{
    this.merge(other)
}

/// One step of a record merge: merges `other` into the field `field`. A
/// failure gets the field's label `label` added to its value trace, so that
/// the trace reads from the record down to the failing field.
///
/// A record merges its fields this way in declared order and stops at the
/// first failure; a field that is skipped keeps the value of `self`.
pub fn merge_field<T: Merge>(field: &mut T, other: T, label: String) -> (r: Result<(), Error>)
    ensures
        match r {
            Ok(_) => T::merge_spec(*old(field), other, Ok(*final(field))),
            Err(e) => exists|e0: ErrorView|
                T::merge_spec(*old(field), other, Err(e0)) && e@ == #[trigger] e0.with_value(label@),
        },
{
    match field.merge_ref(other) {
        Ok(()) => Ok(()),
        Err(e) => {
            let ghost e0 = e@;
            let mut e = e;
            e.value.push(label);
            assert(e@ == e0.with_value(label@));
            Err(e)
        },
    }
}

/// One step of a record merge that combines the field with a function of the
/// caller's (for a field whose type has no merge of its own). A failure gets
/// the field's label `label` added to its value trace.
pub fn merge_field_with<T, F: FnOnce(T, T) -> Result<T, Error>>(
    field: T,
    other: T,
    label: String,
    combine: F,
) -> (r: Result<T, Error>)
    requires
        combine.requires((field, other)),
    ensures
        exists|c: Result<T, Error>|
            #[trigger] combine.ensures((field, other), c) && match (c, r) {
                (Ok(a), Ok(b)) => a == b,
                (Err(a), Err(b)) => b@ == a@.with_value(label@),
                _ => false,
            },
{
    let c = combine(field, other);
    let ghost c0 = c;
    match c {
        Ok(v) => Ok(v),
        Err(e) => {
            let mut e = e;
            e.value.push(label);
            assert(combine.ensures((field, other), c0));
            Err(e)
        },
    }
}

} // verus!
