//! The strategies of built-in shapes: scalars and strings never combine,
//! `Option` treats absence as the identity, `Vec` concatenates, `Box` passes
//! through, `()` merges to itself and sets take the union.
use std::collections::{BTreeSet, HashSet};
use std::hash::{BuildHasher, Hash};

use vstd::prelude::*;
use vstd::std_specs::btree::key_obeys_cmp_spec;
use vstd::std_specs::hash::{builds_valid_hashers, obeys_key_model};

use crate::error::{collision_view, Error, ErrorView};
use crate::merge::Merge;

verus! {

/// The outcome of every merge of two unmergeable values.
pub open spec fn collides<T>(r: Result<T, ErrorView>) -> bool {
    r == Err::<T, ErrorView>(collision_view())
}

impl Merge for bool {
    open spec fn merge_spec(self, other: Self, r: Result<Self, ErrorView>) -> bool {
        collides(r)
    }

    open spec fn left_after(self, other: Self, r: Result<(), ErrorView>, after: Self) -> bool {
        after == self
    }

    fn merge_ref(&mut self, other: Self) -> (r: Result<(), Error>) {
        let _ = self;
        Err(Error::collision())
    }
}

impl Merge for char {
    open spec fn merge_spec(self, other: Self, r: Result<Self, ErrorView>) -> bool {
        collides(r)
    }

    open spec fn left_after(self, other: Self, r: Result<(), ErrorView>, after: Self) -> bool {
        after == self
    }

    fn merge_ref(&mut self, other: Self) -> (r: Result<(), Error>) {
        Err(Error::collision())
    }
}

impl Merge for i8 {
    open spec fn merge_spec(self, other: Self, r: Result<Self, ErrorView>) -> bool {
        collides(r)
    }

    open spec fn left_after(self, other: Self, r: Result<(), ErrorView>, after: Self) -> bool {
        after == self
    }

    fn merge_ref(&mut self, other: Self) -> (r: Result<(), Error>) {
        Err(Error::collision())
    }
}

impl Merge for i16 {
    open spec fn merge_spec(self, other: Self, r: Result<Self, ErrorView>) -> bool {
        collides(r)
    }

    open spec fn left_after(self, other: Self, r: Result<(), ErrorView>, after: Self) -> bool {
        after == self
    }

    fn merge_ref(&mut self, other: Self) -> (r: Result<(), Error>) {
        Err(Error::collision())
    }
}

impl Merge for i32 {
    open spec fn merge_spec(self, other: Self, r: Result<Self, ErrorView>) -> bool {
        collides(r)
    }

    open spec fn left_after(self, other: Self, r: Result<(), ErrorView>, after: Self) -> bool {
        after == self
    }

    fn merge_ref(&mut self, other: Self) -> (r: Result<(), Error>) {
        Err(Error::collision())
    }
}

impl Merge for i64 {
    open spec fn merge_spec(self, other: Self, r: Result<Self, ErrorView>) -> bool {
        collides(r)
    }

    open spec fn left_after(self, other: Self, r: Result<(), ErrorView>, after: Self) -> bool {
        after == self
    }

    fn merge_ref(&mut self, other: Self) -> (r: Result<(), Error>) {
        Err(Error::collision())
    }
}

impl Merge for isize {
    open spec fn merge_spec(self, other: Self, r: Result<Self, ErrorView>) -> bool {
        collides(r)
    }

    open spec fn left_after(self, other: Self, r: Result<(), ErrorView>, after: Self) -> bool {
        after == self
    }

    fn merge_ref(&mut self, other: Self) -> (r: Result<(), Error>) {
        Err(Error::collision())
    }
}

impl Merge for u8 {
    open spec fn merge_spec(self, other: Self, r: Result<Self, ErrorView>) -> bool {
        collides(r)
    }

    open spec fn left_after(self, other: Self, r: Result<(), ErrorView>, after: Self) -> bool {
        after == self
    }

    fn merge_ref(&mut self, other: Self) -> (r: Result<(), Error>) {
        Err(Error::collision())
    }
}

impl Merge for u16 {
    open spec fn merge_spec(self, other: Self, r: Result<Self, ErrorView>) -> bool {
        collides(r)
    }

    open spec fn left_after(self, other: Self, r: Result<(), ErrorView>, after: Self) -> bool {
        after == self
    }

    fn merge_ref(&mut self, other: Self) -> (r: Result<(), Error>) {
        Err(Error::collision())
    }
}

impl Merge for u32 {
    open spec fn merge_spec(self, other: Self, r: Result<Self, ErrorView>) -> bool {
        collides(r)
    }

    open spec fn left_after(self, other: Self, r: Result<(), ErrorView>, after: Self) -> bool {
        after == self
    }

    fn merge_ref(&mut self, other: Self) -> (r: Result<(), Error>) {
        Err(Error::collision())
    }
}

impl Merge for u64 {
    open spec fn merge_spec(self, other: Self, r: Result<Self, ErrorView>) -> bool {
        collides(r)
    }

    open spec fn left_after(self, other: Self, r: Result<(), ErrorView>, after: Self) -> bool {
        after == self
    }

    fn merge_ref(&mut self, other: Self) -> (r: Result<(), Error>) {
        Err(Error::collision())
    }
}

impl Merge for usize {
    open spec fn merge_spec(self, other: Self, r: Result<Self, ErrorView>) -> bool {
        collides(r)
    }

    open spec fn left_after(self, other: Self, r: Result<(), ErrorView>, after: Self) -> bool {
        after == self
    }

    fn merge_ref(&mut self, other: Self) -> (r: Result<(), Error>) {
        Err(Error::collision())
    }
}

impl Merge for String {
    open spec fn merge_spec(self, other: Self, r: Result<Self, ErrorView>) -> bool {
        collides(r)
    }

    open spec fn left_after(self, other: Self, r: Result<(), ErrorView>, after: Self) -> bool {
        after == self
    }

    fn merge_ref(&mut self, other: Self) -> (r: Result<(), Error>) {
        Err(Error::collision())
    }
}

impl<'a> Merge for &'a str {
    open spec fn merge_spec(self, other: Self, r: Result<Self, ErrorView>) -> bool {
        collides(r)
    }

    open spec fn left_after(self, other: Self, r: Result<(), ErrorView>, after: Self) -> bool {
        after == self
    }

    fn merge_ref(&mut self, other: Self) -> (r: Result<(), Error>) {
        Err(Error::collision())
    }
}

impl Merge for Box<str> {
    open spec fn merge_spec(self, other: Self, r: Result<Self, ErrorView>) -> bool {
        collides(r)
    }

    open spec fn left_after(self, other: Self, r: Result<(), ErrorView>, after: Self) -> bool {
        after == self
    }

    fn merge_ref(&mut self, other: Self) -> (r: Result<(), Error>) {
        Err(Error::collision())
    }
}

impl<T> Merge for Box<[T]> {
    open spec fn merge_spec(self, other: Self, r: Result<Self, ErrorView>) -> bool {
        collides(r)
    }

    open spec fn left_after(self, other: Self, r: Result<(), ErrorView>, after: Self) -> bool {
        after == self
    }

    fn merge_ref(&mut self, other: Self) -> (r: Result<(), Error>) {
        Err(Error::collision())
    }
}

impl<T, E> Merge for Result<T, E> {
    open spec fn merge_spec(self, other: Self, r: Result<Self, ErrorView>) -> bool {
        collides(r)
    }

    open spec fn left_after(self, other: Self, r: Result<(), ErrorView>, after: Self) -> bool {
        after == self
    }

    fn merge_ref(&mut self, other: Self) -> (r: Result<(), Error>) {
        Err(Error::collision())
    }
}

impl<T> Merge for core::ops::Range<T> {
    open spec fn merge_spec(self, other: Self, r: Result<Self, ErrorView>) -> bool {
        collides(r)
    }

    open spec fn left_after(self, other: Self, r: Result<(), ErrorView>, after: Self) -> bool {
        after == self
    }

    fn merge_ref(&mut self, other: Self) -> (r: Result<(), Error>) {
        Err(Error::collision())
    }
}

impl<T> Merge for core::ops::RangeInclusive<T> {
    open spec fn merge_spec(self, other: Self, r: Result<Self, ErrorView>) -> bool {
        collides(r)
    }

    open spec fn left_after(self, other: Self, r: Result<(), ErrorView>, after: Self) -> bool {
        after == self
    }

    fn merge_ref(&mut self, other: Self) -> (r: Result<(), Error>) {
        Err(Error::collision())
    }
}

impl<T> Merge for core::marker::PhantomData<T> {
    open spec fn merge_spec(self, other: Self, r: Result<Self, ErrorView>) -> bool {
        r == Ok::<Self, ErrorView>(self)
    }

    fn merge_ref(&mut self, other: Self) -> (r: Result<(), Error>) {
        Ok(())
    }
}

impl Merge for () {
    open spec fn merge_spec(self, other: Self, r: Result<Self, ErrorView>) -> bool {
        r == Ok::<(), ErrorView>(())
    }

    fn merge_ref(&mut self, other: Self) -> (r: Result<(), Error>) {
        Ok(())
    }
}

impl<T: Merge> Merge for Option<T> {
    open spec fn merge_spec(self, other: Self, r: Result<Self, ErrorView>) -> bool {
        match (self, other) {
            (Some(a), Some(b)) => match r {
                Ok(Some(v)) => T::merge_spec(a, b, Ok(v)),
                Ok(None) => false,
                Err(e) => T::merge_spec(a, b, Err(e)),
            },
            (Some(a), None) => r == Ok::<Self, ErrorView>(Some(a)),
            (None, x) => r == Ok::<Self, ErrorView>(x),
        }
    }

    fn merge_ref(&mut self, other: Self) -> (r: Result<(), Error>) {
        match other {
            None => Ok(()),
            Some(b) => {
                let this = self.take();
                match this {
                    Some(a) => {
                        let mut a = a;
                        let r = a.merge_ref(b);
                        *self = Some(a);
                        r
                    },
                    None => {
                        *self = Some(b);
                        Ok(())
                    },
                }
            },
        }
    }
}

impl<T> Merge for Vec<T> {
    open spec fn merge_spec(self, other: Self, r: Result<Self, ErrorView>) -> bool {
        r is Ok && r->Ok_0@ == self@ + other@
    }

    fn merge_ref(&mut self, other: Self) -> (r: Result<(), Error>) {
        let mut other = other;
        self.append(&mut other);
        Ok(())
    }
}

impl<T: Merge> Merge for Box<T> {
    open spec fn merge_spec(self, other: Self, r: Result<Self, ErrorView>) -> bool {
        match r {
            Ok(v) => T::merge_spec(*self, *other, Ok(*v)),
            Err(e) => T::merge_spec(*self, *other, Err(e)),
        }
    }

    fn merge_ref(&mut self, other: Self) -> (r: Result<(), Error>) {
        T::merge_ref(&mut **self, *other)
    }
}

/// Relies on `HashSet::extend` (std): each item of `other` is inserted into
/// `set`, so the set afterwards is the union of both.
#[verifier::external_body]
fn extend_hash_set<K: Eq + Hash, S: BuildHasher>(set: &mut HashSet<K, S>, other: HashSet<K, S>)
    ensures
        obeys_key_model::<K>() && builds_valid_hashers::<S>() ==> final(set)@ == old(set)@.union(other@),
{
    set.extend(other)
}

/// Relies on `BTreeSet::append` (std): all items of `other` are moved into
/// `set`, so the set afterwards is the union of both.
#[verifier::external_body]
fn append_btree_set<K: Ord>(set: &mut BTreeSet<K>, other: BTreeSet<K>)
    ensures
        key_obeys_cmp_spec::<K>() ==> final(set)@ == old(set)@.union(other@),
{
    let mut other = other;
    set.append(&mut other)
}

impl<K: Eq + Hash, S: BuildHasher> Merge for HashSet<K, S> {
    /// Union. (For keys whose hashing and equality follow the usual model.)
    open spec fn merge_spec(self, other: Self, r: Result<Self, ErrorView>) -> bool {
        &&& r is Ok
        &&& obeys_key_model::<K>() && builds_valid_hashers::<S>() ==> r->Ok_0@ == self@.union(other@)
    }

    fn merge_ref(&mut self, other: Self) -> (r: Result<(), Error>) {
        extend_hash_set(self, other);
        Ok(())
    }
}

impl<K: Ord> Merge for BTreeSet<K> {
    /// Union. (For keys whose ordering follows the usual model.)
    open spec fn merge_spec(self, other: Self, r: Result<Self, ErrorView>) -> bool {
        &&& r is Ok
        &&& key_obeys_cmp_spec::<K>() ==> r->Ok_0@ == self@.union(other@)
    }

    fn merge_ref(&mut self, other: Self) -> (r: Result<(), Error>) {
        append_btree_set(self, other);
        Ok(())
    }
}

/// Concatenation of sequences is associative.
pub proof fn lemma_concat_associative<T>(
    a: Vec<T>,
    b: Vec<T>,
    c: Vec<T>,
    ab: Vec<T>,
    ab_c: Vec<T>,
    bc: Vec<T>,
    a_bc: Vec<T>,
)
    requires
        a.merge_spec(b, Ok(ab)),
        ab.merge_spec(c, Ok(ab_c)),
        b.merge_spec(c, Ok(bc)),
        a.merge_spec(bc, Ok(a_bc)),
    ensures
        ab_c@ == a_bc@,
{
    assert(ab_c@ =~= a_bc@);
}

/// Merging a sequence with an empty one, on either side, succeeds and leaves
/// it unchanged.
pub proof fn lemma_concat_identity<T>(
    a: Vec<T>,
    empty: Vec<T>,
    r1: Result<Vec<T>, ErrorView>,
    r2: Result<Vec<T>, ErrorView>,
)
    requires
        empty@.len() == 0,
        a.merge_spec(empty, r1),
        empty.merge_spec(a, r2),
    ensures
        r1 is Ok && r1->Ok_0@ == a@,
        r2 is Ok && r2->Ok_0@ == a@,
{
    assert(a@ + empty@ =~= a@);
    assert(empty@ + a@ =~= a@);
}

} // verus!
