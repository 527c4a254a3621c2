//! Merging in a chosen order.
use vstd::prelude::*;

use crate::error::{Error, ErrorView};
use crate::merge::Merge;

verus! {

/// The position of an [`Ordered`] value relative to the other one.
#[derive(Debug, Clone, Copy, PartialEq, Eq, Structural, Hash)]
pub enum Order {
    /// This value comes before the other value.
    Before,
    /// This value comes after the other value.
    After,
}

impl Default for Order {
    fn default() -> (r: Order)
        ensures
            r == Order::Before,
    {
        Order::Before
    }
}

/// A value with a position tag.
///
/// When the other operand is tagged [`Order::Before`], the two inner values
/// trade places before the inner merge, so that the contribution tagged
/// `Before` comes first (for lists: its items come first).
#[derive(Debug, Clone, Copy)]
pub struct Ordered<T> {
    value: T,
    order: Order,
}

impl<T> Ordered<T> {
    /// The inner value.
    pub closed spec fn value_spec(self) -> T {
        self.value
    }

    /// The position tag.
    pub closed spec fn order_spec(self) -> Order {
        self.order
    }

    /// `value` with the default order, [`Order::Before`].
    pub fn new(value: T) -> (r: Ordered<T>)
        ensures
            r.value_spec() == value,
            r.order_spec() == Order::Before,
    {
        Ordered::with_order(value, Order::Before)
    }

    /// `value` with `order`.
    pub fn with_order(value: T, order: Order) -> (r: Ordered<T>)
        ensures
            r.value_spec() == value,
            r.order_spec() == order,
    {
        Ordered { value, order }
    }

    /// The order of this value.
    pub fn order(&self) -> (r: Order)
        ensures
            r == self.order_spec(),
    {
        self.order
    }

    /// Sets the order of this value.
    pub fn set_order(&mut self, order: Order)
        ensures
            final(self).order_spec() == order,
            final(self).value_spec() == old(self).value_spec(),
    {
        self.order = order;
    }

    /// The inner value.
    pub fn value(&self) -> (r: &T)
        ensures
            *r == self.value_spec(),
    {
        &self.value
    }

    /// Takes the inner value out.
    pub fn into_value(self) -> (r: T)
        ensures
            r == self.value_spec(),
    {
        self.value
    }
}

impl<T: Merge> Merge for Ordered<T> {
    open spec fn merge_spec(self, other: Self, r: Result<Self, ErrorView>) -> bool {
        let first = if other.order_spec() == Order::Before {
            other.value_spec()
        } else {
            self.value_spec()
        };
        let second = if other.order_spec() == Order::Before {
            self.value_spec()
        } else {
            other.value_spec()
        };
        match r {
            Ok(v) => v.order_spec() == self.order_spec() && T::merge_spec(first, second, Ok(v.value_spec())),
            Err(e) => T::merge_spec(first, second, Err(e)),
        }
    }

    /// The tag of `self` stays, also after an error.
    open spec fn left_after(self, other: Self, r: Result<(), ErrorView>, after: Self) -> bool {
        after.order_spec() == self.order_spec()
    }

    fn merge_ref(&mut self, other: Self) -> (r: Result<(), Error>) {
        let mut other = other;
        if other.order == Order::Before {
            core::mem::swap(&mut self.value, &mut other.value);
        }
        self.value.merge_ref(other.value)
    }
}

} // verus!
