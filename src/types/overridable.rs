//! Values overridden by priority.
use vstd::prelude::*;

use crate::error::{collision_view, Error, ErrorView};
use crate::impls::collides;
use crate::merge::Merge;

verus! {

/// The priority given to a value when none is named.
pub const DEFAULT_PRIORITY: isize = 500;

/// The priority of an [`Overridable`] value: the smaller number wins.
#[derive(Debug, Clone, Copy, PartialEq, Eq, Structural, PartialOrd, Ord, Hash)]
pub struct Priority(isize);

impl View for Priority {
    type V = isize;

    closed spec fn view(&self) -> isize {
        self.0
    }
}

impl Priority {
    /// The priority numbered `value`.
    pub fn new(value: isize) -> (r: Priority)
        ensures
            r@ == value,
    {
        Priority(value)
    }

    /// The number of this priority.
    pub fn get(&self) -> (r: isize)
        ensures
            r == self@,
    {
        self.0
    }
}

/// A value that a value of lower priority number overrides.
///
/// Merging two of them keeps, whole, the one whose priority number is
/// strictly lower; the inner values are never combined. Equal priorities
/// collide.
#[derive(Debug, Clone, Copy)]
pub struct Overridable<T> {
    value: T,
    priority: Priority,
}

impl<T> Overridable<T> {
    /// The inner value.
    pub closed spec fn value_spec(self) -> T {
        self.value
    }

    /// The priority number.
    pub closed spec fn priority_spec(self) -> isize {
        self.priority@
    }

    /// `value` with the default priority, [`DEFAULT_PRIORITY`].
    pub fn new(value: T) -> (r: Overridable<T>)
        ensures
            r.value_spec() == value,
            r.priority_spec() == DEFAULT_PRIORITY,
    {
        Overridable::with_priority(value, DEFAULT_PRIORITY)
    }

    /// `value` with the priority numbered `priority`.
    pub fn with_priority(value: T, priority: isize) -> (r: Overridable<T>)
        ensures
            r.value_spec() == value,
            r.priority_spec() == priority,
    {
        Overridable { value, priority: Priority(priority) }
    }

    /// The priority of this value.
    pub fn priority(&self) -> (r: Priority)
        ensures
            r@ == self.priority_spec(),
    {
        self.priority
    }

    /// Sets the priority of this value.
    pub fn set_priority(&mut self, priority: isize)
        ensures
            final(self).priority_spec() == priority,
            final(self).value_spec() == old(self).value_spec(),
    {
        self.priority = Priority(priority);
    }

    /// The inner value.
    pub fn value(&self) -> (r: &T)
        ensures
            *r == self.value_spec(),
    {
        &self.value
    }

    /// Takes the inner value out.
    pub fn into_value(self) -> (r: T)
        ensures
            r == self.value_spec(),
    {
        self.value
    }
}

impl<T> Merge for Overridable<T> {
    open spec fn merge_spec(self, other: Self, r: Result<Self, ErrorView>) -> bool {
        if self.priority_spec() < other.priority_spec() {
            r == Ok::<Self, ErrorView>(self)
        } else if self.priority_spec() > other.priority_spec() {
            r == Ok::<Self, ErrorView>(other)
        } else {
            collides(r)
        }
    }

    /// A tie leaves `self` as it was.
    open spec fn left_after(self, other: Self, r: Result<(), ErrorView>, after: Self) -> bool {
        r is Err ==> after == self
    }

    fn merge_ref(&mut self, other: Self) -> (r: Result<(), Error>) {
        if self.priority.0 < other.priority.0 {
            Ok(())
        } else if self.priority.0 > other.priority.0 {
            *self = other;
            Ok(())
        } else {
            Err(Error::collision())
        }
    }
}

/// With distinct priorities, the winner does not depend on which value is
/// `self`: both orders succeed with the same value.
pub proof fn lemma_override_commutative<T>(
    a: Overridable<T>,
    b: Overridable<T>,
    ab: Result<Overridable<T>, ErrorView>,
    ba: Result<Overridable<T>, ErrorView>,
)
    requires
        a.priority_spec() != b.priority_spec(),
        a.merge_spec(b, ab),
        b.merge_spec(a, ba),
    ensures
        ab is Ok,
        ba is Ok,
        ab->Ok_0 == ba->Ok_0,
        ab->Ok_0.value_spec() == ba->Ok_0.value_spec(),
{
}

/// Two values of equal priority always collide, whatever they hold.
pub proof fn lemma_override_tie<T>(
    a: Overridable<T>,
    b: Overridable<T>,
    r: Result<Overridable<T>, ErrorView>,
)
    requires
        a.priority_spec() == b.priority_spec(),
        a.merge_spec(b, r),
    ensures
        r == Err::<Overridable<T>, ErrorView>(collision_view()),
{
}

} // verus!
