//! An accumulator that merges many values and defers the first error.
use vstd::prelude::*;

use crate::error::{Error, ErrorView};
use crate::merge::Merge;

verus! {

/// An accumulator for merging.
///
/// It holds an optional value and a pending result. The first value fed in
/// fills it; each later one is merged into the held value while the pending
/// result is a success. Once a merge fails, its error is kept and every value
/// fed afterwards is dropped.
#[derive(Debug)]
pub struct MergeCell<T> {
    value: Option<T>,
    result: Result<(), Error>,
}

impl<T> MergeCell<T> {
    /// A failed merge needs a value held.
    #[verifier::type_invariant]
    closed spec fn wf(self) -> bool {
        self.result is Err ==> self.value is Some
    }

    /// The held value, if any.
    pub closed spec fn held(self) -> Option<T> {
        self.value
    }

    /// The pending result: a success, or the first error.
    pub closed spec fn pending(self) -> Result<(), ErrorView> {
        match self.result {
            Ok(_) => Ok(()),
            Err(e) => Err(e@),
        }
    }

    /// The final result over views: `None` when nothing was fed, else the
    /// held value or the first error.
    pub open spec fn finished(self) -> Option<Result<T, ErrorView>> {
        match self.held() {
            None => None,
            Some(v) => Some(
                match self.pending() {
                    Ok(_) => Ok(v),
                    Err(e) => Err(e),
                },
            ),
        }
    }

    /// An empty cell.
    pub fn empty() -> (r: MergeCell<T>)
        ensures
            r.held() is None,
            r.pending() is Ok,
    {
        MergeCell { value: None, result: Ok(()) }
    }

    /// A cell that holds `value`.
    pub fn new(value: T) -> (r: MergeCell<T>)
        ensures
            r.held() == Some(value),
            r.pending() is Ok,
    {
        MergeCell { value: Some(value), result: Ok(()) }
    }

    /// Whether nothing was fed in.
    pub fn is_empty(&self) -> (r: bool)
        ensures
            r == self.held() is None,
    {
        self.value.is_none()
    }

    /// Whether a merge has failed.
    pub fn has_errored(&self) -> (r: bool)
        ensures
            r == self.pending() is Err,
    {
        self.result.is_err()
    }

    /// The held value, or the first error. The cell must not be empty.
    pub fn finish(self) -> (r: Result<T, Error>)
        requires
            self.held() is Some,
        ensures
            self.finished() == Some(crate::merge::outcome(r)),
    {
        match self.try_finish() {
            Some(r) => r,
            None => {
                assert(false);
                Err(Error::collision())
            },
        }
    }

    /// `None` when nothing was fed in; else the held value or the first
    /// error.
    pub fn try_finish(self) -> (r: Option<Result<T, Error>>)
        ensures
            self.finished() == match r {
                None => None,
                Some(x) => Some(crate::merge::outcome(x)),
            },
    {
        match self.value {
            None => None,
            Some(v) => match self.result {
                Ok(()) => Some(Ok(v)),
                Err(e) => Some(Err(e)),
            },
        }
    }
}

impl<T: Merge> MergeCell<T> {
    /// Whether feeding `other` into `before` may leave `after`.
    pub open spec fn fed(before: Self, other: T, after: Self) -> bool {
        match before.held() {
            None => after.held() == Some(other) && after.pending() is Ok,
            Some(v) => match before.pending() {
                Err(_) => after.held() == before.held() && after.pending() == before.pending(),
                Ok(_) => after.held() is Some && T::merge_spec(
                    v,
                    other,
                    match after.pending() {
                        Ok(_) => Ok(after.held()->Some_0),
                        Err(e) => Err(e),
                    },
                ),
            },
        }
    }

    /// Feeds `other` in: it fills an empty cell, is merged into the held
    /// value while no merge has failed, and is dropped after a failure.
    pub fn merge(&mut self, other: T)
        ensures
            Self::fed(*old(self), other, *final(self)),
    {
        let mut this = MergeCell::empty();
        core::mem::swap(self, &mut this);
        proof {
            use_type_invariant(&this);
        }
        let MergeCell { value, result } = this;
        match value {
            None => {
                *self = MergeCell { value: Some(other), result: Ok(()) };
            },
            Some(a) => {
                let mut a = a;
                let result = if result.is_ok() {
                    a.merge_ref(other)
                } else {
                    result
                };
                *self = MergeCell { value: Some(a), result };
            },
        }
    }
}

/// One step of a fold: an earlier error stays; else `x` is merged into the
/// value so far.
pub open spec fn fold_step<T: Merge>(p: Result<T, ErrorView>, x: T, r: Result<T, ErrorView>) -> bool {
    match p {
        Ok(v) => T::merge_spec(v, x, r),
        Err(e) => r == Err::<T, ErrorView>(e),
    }
}

/// `chain` lists the outcomes after each of `items` is folded in: the first
/// item alone, then one [`fold_step`] per item.
pub open spec fn fold_chain<T: Merge>(items: Seq<T>, chain: Seq<Result<T, ErrorView>>) -> bool {
    &&& items.len() > 0
    &&& chain.len() == items.len()
    &&& chain[0] == Ok::<T, ErrorView>(items[0])
    &&& forall|i: int| 0 < i < items.len() ==> #[trigger] fold_step(chain[i - 1], items[i], chain[i])
}

/// Whether folding the non-empty `items` from the front, stopping at the
/// first error, may end in `r`.
pub open spec fn folds_to<T: Merge>(items: Seq<T>, r: Result<T, ErrorView>) -> bool {
    exists|chain: Seq<Result<T, ErrorView>>| fold_chain(items, chain) && chain.last() == r
}

/// Once a fold has failed, its result is that first error: the items after
/// it are not merged.
pub proof fn lemma_fold_keeps_first_error<T: Merge>(
    items: Seq<T>,
    chain: Seq<Result<T, ErrorView>>,
    i: int,
    e: ErrorView,
)
    requires
        fold_chain(items, chain),
        0 <= i < chain.len(),
        chain[i] == Err::<T, ErrorView>(e),
    ensures
        chain.last() == Err::<T, ErrorView>(e),
    decreases chain.len() - i,
{
    if i + 1 < chain.len() {
        assert(fold_step(chain[(i + 1) - 1], items[i + 1], chain[i + 1]));
        lemma_fold_keeps_first_error(items, chain, i + 1, e);
    }
}

/// Merges all of `items` in order. `None` when there is none; else the merged
/// value, or the first error (the items after it are not merged).
pub fn try_merge<T: Merge>(items: Vec<T>) -> (r: Option<Result<T, Error>>)
    ensures
        items@.len() == 0 ==> r is None,
        items@.len() > 0 ==> r is Some && folds_to(items@, crate::merge::outcome(r->Some_0)),
{
    let ghost all = items@;
    let ghost n = all.len();
    let ghost mut chain: Seq<Result<T, ErrorView>> = Seq::empty();
    let mut items = items;
    let mut cell: MergeCell<T> = MergeCell::empty();
    while items.len() > 0
        invariant
            n == all.len(),
            items@.len() <= n,
            items@ == all.subrange(n - items@.len(), n as int),
            (cell.held() is None) == (items@.len() == n),
            cell.held() is None ==> cell.pending() is Ok,
            cell.held() is Some ==> fold_chain(all.subrange(0, n - items@.len()), chain)
                && chain.last() == cell.finished()->Some_0,
        decreases items.len(),
    {
        let ghost before = cell;
        let ghost i = n - items@.len();
        let x = items.remove(0);
        assert(x == all[i]);
        cell.merge(x);
        assert(items@ =~= all.subrange(i + 1, n as int));
        proof {
            let pre = all.subrange(0, i + 1);
            if i > 0 {
                let old_chain = chain;
                chain = chain.push(cell.finished()->Some_0);
                assert(fold_step(old_chain.last(), x, chain.last()));
                assert forall|j: int| 0 < j < pre.len() implies #[trigger] fold_step(chain[j - 1], pre[j], chain[j]) by {
                    if j < i {
                        assert(all.subrange(0, i)[j] == pre[j]);
                        assert(fold_step(old_chain[j - 1], all.subrange(0, i)[j], old_chain[j]));
                    }
                };
            } else {
                chain = seq![cell.finished()->Some_0];
            }
        }
    }
    assert(all.subrange(0, n as int) =~= all);
    cell.try_finish()
}

} // verus!
