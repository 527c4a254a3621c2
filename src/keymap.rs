//! A mapping with unique string keys, merged key by key.
use vstd::prelude::*;
use vstd::string::StringExecFns;

use crate::error::{Error, ErrorView};
use crate::merge::Merge;

verus! {

/// Entries over plain keys.
pub type Entries<V> = Seq<(Seq<char>, V)>;

/// No key occurs twice.
pub open spec fn unique_keys<V>(s: Entries<V>) -> bool {
    forall|i: int, j: int| 0 <= i < s.len() && 0 <= j < s.len() && i != j ==> #[trigger] s[i].0 != #[trigger] s[j].0
}

/// Some entry has the key `k`.
pub open spec fn has_key<V>(s: Entries<V>, k: Seq<char>) -> bool {
    exists|i: int| 0 <= i < s.len() && #[trigger] s[i].0 == k
}

/// The value under `k` (meaningful when `has_key(s, k)`).
pub open spec fn value_of<V>(s: Entries<V>, k: Seq<char>) -> V {
    s[choose|i: int| 0 <= i < s.len() && #[trigger] s[i].0 == k].1
}

/// The set of keys.
pub open spec fn key_set<V>(s: Entries<V>) -> Set<Seq<char>> {
    Set::new(|k: Seq<char>| has_key(s, k))
}

/// The entries of `b` whose key `a` lacks, in the order of `b`.
pub open spec fn fresh_entries<V>(a: Entries<V>, b: Entries<V>) -> Entries<V>
    decreases b.len(),
{
    if b.len() == 0 {
        Seq::empty()
    } else {
        let rest = fresh_entries(a, b.drop_last());
        if has_key(a, b.last().0) {
            rest
        } else {
            rest.push(b.last())
        }
    }
}

/// The label that a failure under key `k` adds to the value trace: the key in
/// double quotes.
pub open spec fn key_label(k: Seq<char>) -> Seq<char> {
    seq!['"'] + k + seq!['"']
}

/// `m` is the merge of `a` with the first `j` entries of `b`: the entries of
/// `a` keep their place, those whose key one of them has hold the merged value,
/// and the new entries follow in the order of `b`.
pub open spec fn merged_prefix<V: Merge>(a: Entries<V>, b: Entries<V>, j: int, m: Entries<V>) -> bool {
    let done = b.subrange(0, j);
    &&& m.len() >= a.len()
    &&& forall|i: int|
        0 <= i < a.len() ==> {
            &&& (#[trigger] m[i]).0 == a[i].0
            &&& has_key(done, a[i].0) ==> V::merge_spec(a[i].1, value_of(b, a[i].0), Ok(m[i].1))
            &&& !has_key(done, a[i].0) ==> m[i].1 == a[i].1
        }
    &&& m.subrange(a.len() as int, m.len() as int) == fresh_entries(a, done)
}

/// The merge of `b` into `a` fails at entry `j` of `b`: the entries before it
/// whose key `a` has merged, and the one at `j` failed with an error that,
/// with the key added to its value trace, is `e`.
pub open spec fn fails_at<V: Merge>(a: Entries<V>, b: Entries<V>, j: int, e: ErrorView) -> bool {
    &&& 0 <= j < b.len()
    &&& has_key(a, b[j].0)
    &&& exists|e0: ErrorView|
        V::merge_spec(value_of(a, b[j].0), b[j].1, Err(e0)) && e == #[trigger] e0.with_value(key_label(b[j].0))
    &&& forall|i: int|
        0 <= i < j && has_key(a, #[trigger] b[i].0) ==> exists|v: V| V::merge_spec(value_of(a, b[i].0), b[i].1, Ok(v))
}

/// A mapping from string keys to values, each key at most once, in the order
/// the keys were first inserted.
#[derive(Debug)]
pub struct KeyMap<V> {
    entries: Vec<(String, V)>,
}

impl<V> KeyMap<V> {
    /// The entries over plain keys, in order.
    pub closed spec fn entries_spec(self) -> Entries<V> {
        self.entries@.map_values(|e: (String, V)| (e.0@, e.1))
    }

    #[verifier::type_invariant]
    closed spec fn wf(self) -> bool {
        unique_keys(self.entries_spec())
    }

    /// An empty mapping.
    pub fn new() -> (r: KeyMap<V>)
        ensures
            r.entries_spec() == Seq::<(Seq<char>, V)>::empty(),
    {
        let r = KeyMap { entries: Vec::new() };
        assert(r.entries_spec() =~= Seq::<(Seq<char>, V)>::empty());
        r
    }

    /// Gives the caller the fact that no key occurs twice (for proofs such
    /// as [`lemma_union`]); does nothing at run time.
    pub fn keys_are_unique(&self)
        ensures
            unique_keys(self.entries_spec()),
    {
        proof {
            use_type_invariant(self);
        }
    }

    /// Number of entries.
    pub fn len(&self) -> (r: usize)
        ensures
            r == self.entries_spec().len(),
    {
        self.entries.len()
    }

    /// Whether `key` is present.
    pub fn contains_key(&self, key: &str) -> (r: bool)
        ensures
            r == has_key(self.entries_spec(), key@),
    {
        position(&self.entries, key).is_some()
    }

    /// The value under `key`, if present.
    pub fn get(&self, key: &str) -> (r: Option<&V>)
        ensures
            r is None == !has_key(self.entries_spec(), key@),
            r is Some ==> *r->Some_0 == value_of(self.entries_spec(), key@),
    {
        proof {
            use_type_invariant(self);
        }
        match position(&self.entries, key) {
            None => None,
            Some(i) => {
                proof {
                    lemma_value_at(self.entries_spec(), i as int);
                }
                Some(&self.entries[i].1)
            },
        }
    }

    /// Puts `value` under `key`: in place of the old value when the key is
    /// present (which is handed back), else as a new last entry.
    pub fn insert(&mut self, key: String, value: V) -> (r: Option<V>)
        ensures
            has_key(old(self).entries_spec(), key@) ==> r is Some
                && r->Some_0 == value_of(old(self).entries_spec(), key@)
                && final(self).entries_spec() == old(self).entries_spec().update(
                    choose|i: int| 0 <= i < old(self).entries_spec().len() && #[trigger] old(self).entries_spec()[i].0 == key@,
                    (key@, value),
                ),
            !has_key(old(self).entries_spec(), key@) ==> r is None
                && final(self).entries_spec() == old(self).entries_spec().push((key@, value)),
    {
        let mut this = KeyMap::new();
        core::mem::swap(self, &mut this);
        proof {
            use_type_invariant(&this);
        }
        let ghost s = this.entries_spec();
        let r = match position(&this.entries, key.as_str()) {
            Some(i) => {
                proof {
                    lemma_value_at(s, i as int);
                }
                let mut entries = this.entries;
                let (_, old_value) = entries.remove(i);
                entries.insert(i, (key, value));
                let ghost m = entries@.map_values(|e: (String, V)| (e.0@, e.1));
                assert(m =~= s.update(i as int, (key@, value)));
                *self = KeyMap { entries };
                Some(old_value)
            },
            None => {
                let mut entries = this.entries;
                entries.push((key, value));
                let ghost m = entries@.map_values(|e: (String, V)| (e.0@, e.1));
                assert(m =~= s.push((key@, value)));
                *self = KeyMap { entries };
                None
            },
        };
        r
    }
}

impl<V: Merge> Merge for KeyMap<V> {
    /// Key-wise union: the keys of `self` keep their place, a key of both
    /// holds the merge of its two values, and the keys of `other` alone follow
    /// in their order. The first shared key (in the order of `other`) whose
    /// values fail to merge fails the whole merge, with its label added.
    open spec fn merge_spec(self, other: Self, r: Result<Self, ErrorView>) -> bool {
        let a = self.entries_spec();
        let b = other.entries_spec();
        match r {
            Ok(m) => merged_prefix(a, b, b.len() as int, m.entries_spec()) && unique_keys(m.entries_spec()),
            Err(e) => exists|j: int| fails_at(a, b, j, e),
        }
    }

    fn merge_ref(&mut self, other: Self) -> (r: Result<(), Error>) {
        let mut this = KeyMap::new();
        core::mem::swap(self, &mut this);
        proof {
            use_type_invariant(&this);
            use_type_invariant(&other);
        }
        let ghost a = this.entries_spec();
        let ghost b = other.entries_spec();
        assert(a == old(self).entries_spec());
        let ghost bn = b.len();
        let mut entries = this.entries;
        let mut rest = other.entries;
        proof {
            assert(b.subrange(0, 0) =~= Seq::<(Seq<char>, V)>::empty());
            assert(entries_of(entries@).subrange(a.len() as int, a.len() as int) =~= Seq::<(Seq<char>, V)>::empty());
            assert(entries_of(rest@) =~= b.subrange(0, bn as int));
            assert forall|i: int| 0 <= i < a.len() implies !has_key(b.subrange(0, 0), a[i].0) by {};
        }
        while rest.len() > 0
            invariant
                a == old(self).entries_spec(),
                b == other.entries_spec(),
                unique_keys(a),
                unique_keys(b),
                bn == b.len(),
                rest@.len() <= bn,
                entries_of(rest@) == b.subrange(bn - rest@.len(), bn as int),
                unique_keys(entries_of(entries@)),
                merged_prefix(a, b, bn - rest@.len(), entries_of(entries@)),
                forall|i: int|
                    0 <= i < bn - rest@.len() && has_key(a, #[trigger] b[i].0) ==> exists|v: V|
                        V::merge_spec(value_of(a, b[i].0), b[i].1, Ok(v)),
            decreases rest.len(),
        {
            let ghost j = bn - rest@.len();
            let ghost m = entries_of(entries@);
            let ghost done = b.subrange(0, j);
            let ghost done2 = b.subrange(0, j + 1);
            let ghost rest0 = rest@;
            let (k, bv) = rest.remove(0);
            proof {
                assert(entries_of(rest0)[0] == b[j]);
                assert(rest@ =~= rest0.subrange(1, rest0.len() as int));
                assert(entries_of(rest@) =~= entries_of(rest0).subrange(1, rest0.len() as int));
                assert(entries_of(rest@) =~= b.subrange(j + 1, bn as int));
                assert(done2 =~= done.push(b[j]));
                assert(done2.drop_last() =~= done);
                lemma_value_at(b, j);
                if has_key(done, b[j].0) {
                    let x = choose|x: int| 0 <= x < done.len() && #[trigger] done[x].0 == b[j].0;
                    assert(b[x].0 == b[j].0);
                }
                assert(!has_key(done, b[j].0));
            }
            match position(&entries, k.as_str()) {
                None => {
                    entries.push((k, bv));
                    proof {
                        let m2 = entries_of(entries@);
                        assert(m2 =~= m.push(b[j]));
                        if has_key(a, b[j].0) {
                            let i = choose|i: int| 0 <= i < a.len() && #[trigger] a[i].0 == b[j].0;
                            assert(m[i].0 == b[j].0);
                        }
                        assert forall|i: int| 0 <= i < a.len() implies {
                            &&& (#[trigger] m2[i]).0 == a[i].0
                            &&& has_key(done2, a[i].0) ==> V::merge_spec(a[i].1, value_of(b, a[i].0), Ok(m2[i].1))
                            &&& !has_key(done2, a[i].0) ==> m2[i].1 == a[i].1
                        } by {
                            assert(m2[i] == m[i]);
                            lemma_has_key_push(done, b[j], a[i].0);
                        };
                        assert(m2.subrange(a.len() as int, m2.len() as int) =~= m.subrange(a.len() as int, m.len() as int).push(b[j]));
                        assert(unique_keys(m2));
                    }
                },
                Some(i) => {
                    proof {
                        if i >= a.len() {
                            assert(m.subrange(a.len() as int, m.len() as int)[i - a.len()] == m[i as int]);
                            lemma_fresh_keys(a, done, i - a.len());
                            assert(false);
                        }
                        lemma_value_at(a, i as int);
                        assert(m[i as int].0 == a[i as int].0);
                    }
                    let (k2, av) = entries.remove(i);
                    let mut av = av;
                    let res = av.merge_ref(bv);
                    entries.insert(i, (k2, av));
                    let ghost m2 = entries_of(entries@);
                    proof {
                        assert(m2 =~= m.update(i as int, (m[i as int].0, av)));
                        assert(unique_keys(m2));
                    }
                    match res {
                        Ok(()) => {
                            proof {
                                assert forall|x: int| 0 <= x < a.len() implies {
                                    &&& (#[trigger] m2[x]).0 == a[x].0
                                    &&& has_key(done2, a[x].0) ==> V::merge_spec(a[x].1, value_of(b, a[x].0), Ok(m2[x].1))
                                    &&& !has_key(done2, a[x].0) ==> m2[x].1 == a[x].1
                                } by {
                                    lemma_has_key_push(done, b[j], a[x].0);
                                    if x != i {
                                        assert(m2[x] == m[x]);
                                    }
                                };
                                assert(m2.subrange(a.len() as int, m2.len() as int) =~= m.subrange(a.len() as int, m.len() as int));
                                assert forall|x: int|
                                    0 <= x < j + 1 && has_key(a, #[trigger] b[x].0) implies exists|v: V|
                                        V::merge_spec(value_of(a, b[x].0), b[x].1, Ok(v)) by {
                                    if x == j {
                                        assert(V::merge_spec(value_of(a, b[x].0), b[x].1, Ok(av)));
                                    }
                                };
                            }
                        },
                        Err(e) => {
                            let ghost e0 = e@;
                            let mut e = e;
                            e.value.push(quoted(&k));
                            proof {
                                assert(e@ == e0.with_value(key_label(b[j].0)));
                                assert(fails_at(a, b, j, e@));
                                assert(exists|jj: int| fails_at(a, b, jj, e@));

                            }
                            *self = KeyMap { entries };
                            return Err(e);
                        },
                    }
                },
            }
        }
        proof {
            assert(b.subrange(0, bn as int) =~= b);
        }
        *self = KeyMap { entries };
        Ok(())
    }
}

/// Entries of `v` over plain keys.
pub open spec fn entries_of<V>(v: Seq<(String, V)>) -> Entries<V> {
    v.map_values(|e: (String, V)| (e.0@, e.1))
}

/// The position of `key` in `entries`, if present.
fn position<V>(entries: &Vec<(String, V)>, key: &str) -> (r: Option<usize>)
    ensures
        r is None ==> !has_key(entries_of(entries@), key@),
        r is Some ==> r->Some_0 < entries@.len() && entries_of(entries@)[r->Some_0 as int].0 == key@,
{
    let wanted = key.to_owned();
    let mut i: usize = 0;
    while i < entries.len()
        invariant
            wanted@ == key@,
            i <= entries@.len(),
            forall|j: int| 0 <= j < i ==> (#[trigger] entries_of(entries@)[j]).0 != key@,
        decreases entries@.len() - i,
    {
        let same = entries[i].0.eq(&wanted);
        if same {
            return Some(i);
        }
        i = i + 1;
    }
    None
}

/// The label of key `k`.
fn quoted(k: &String) -> (r: String)
    ensures
        r@ == key_label(k@),
{
    let mut r = "\"".to_owned();
    r.append(k.as_str());
    r.append("\"");
    proof {
        reveal_strlit("\"");
        assert(r@ =~= key_label(k@));
    }
    r
}

proof fn lemma_has_key_push<V>(s: Entries<V>, x: (Seq<char>, V), k: Seq<char>)
    ensures
        has_key(s.push(x), k) == (has_key(s, k) || x.0 == k),
{
    if has_key(s, k) {
        let i = choose|i: int| 0 <= i < s.len() && #[trigger] s[i].0 == k;
        assert(s.push(x)[i].0 == k);
    }
    if x.0 == k {
        assert(s.push(x)[s.len() as int].0 == k);
    }
    if has_key(s.push(x), k) {
        let i = choose|i: int| 0 <= i < s.push(x).len() && #[trigger] s.push(x)[i].0 == k;
        if i < s.len() {
            assert(s[i].0 == k);
        }
    }
}

proof fn lemma_fresh_keys<V>(a: Entries<V>, d: Entries<V>, i: int)
    requires
        0 <= i < fresh_entries(a, d).len(),
    ensures
        has_key(d, fresh_entries(a, d)[i].0),
        !has_key(a, fresh_entries(a, d)[i].0),
        exists|x: int| 0 <= x < d.len() && d[x] == fresh_entries(a, d)[i],
    decreases d.len(),
{
    let rest = fresh_entries(a, d.drop_last());
    assert(d =~= d.drop_last().push(d.last()));
    if i < rest.len() {
        lemma_fresh_keys(a, d.drop_last(), i);
        lemma_has_key_push(d.drop_last(), d.last(), rest[i].0);
        let x = choose|x: int| 0 <= x < d.drop_last().len() && d.drop_last()[x] == rest[i];
        assert(d[x] == fresh_entries(a, d)[i]);
    } else {
        lemma_has_key_push(d.drop_last(), d.last(), d.last().0);
        assert(d[d.len() - 1] == fresh_entries(a, d)[i]);
    }
}

proof fn lemma_fresh_has<V>(a: Entries<V>, d: Entries<V>, k: Seq<char>)
    requires
        has_key(d, k),
        !has_key(a, k),
    ensures
        has_key(fresh_entries(a, d), k),
    decreases d.len(),
{
    let rest = fresh_entries(a, d.drop_last());
    assert(d =~= d.drop_last().push(d.last()));
    lemma_has_key_push(d.drop_last(), d.last(), k);
    if d.last().0 == k {
        lemma_has_key_push(rest, d.last(), k);
    } else {
        lemma_fresh_has(a, d.drop_last(), k);
        if !has_key(a, d.last().0) {
            lemma_has_key_push(rest, d.last(), k);
        }
    }
}

/// Merging two mappings yields the union of their keys. A key of one side
/// only keeps its value; under a key of both stands the merge of the two
/// values. A failure is that of a shared key, whose label is the innermost
/// component of the value trace.
pub proof fn lemma_union<V: Merge>(a: KeyMap<V>, b: KeyMap<V>, r: Result<KeyMap<V>, ErrorView>)
    requires
        unique_keys(a.entries_spec()),
        unique_keys(b.entries_spec()),
        a.merge_spec(b, r),
    ensures
        r is Ok ==> key_set(r->Ok_0.entries_spec()) == key_set(a.entries_spec()).union(key_set(b.entries_spec())),
        r is Ok ==> forall|k: Seq<char>|
            has_key(a.entries_spec(), k) && has_key(b.entries_spec(), k) ==> V::merge_spec(
                value_of(a.entries_spec(), k),
                value_of(b.entries_spec(), k),
                Ok(#[trigger] value_of(r->Ok_0.entries_spec(), k)),
            ),
        r is Ok ==> forall|k: Seq<char>|
            has_key(a.entries_spec(), k) && !has_key(b.entries_spec(), k) ==> #[trigger] value_of(
                r->Ok_0.entries_spec(),
                k,
            ) == value_of(a.entries_spec(), k),
        r is Ok ==> forall|k: Seq<char>|
            !has_key(a.entries_spec(), k) && has_key(b.entries_spec(), k) ==> #[trigger] value_of(
                r->Ok_0.entries_spec(),
                k,
            ) == value_of(b.entries_spec(), k),
        r is Err ==> exists|k: Seq<char>, e0: ErrorView|
            has_key(a.entries_spec(), k) && has_key(b.entries_spec(), k) && V::merge_spec(
                value_of(a.entries_spec(), k),
                value_of(b.entries_spec(), k),
                Err(e0),
            ) && r->Err_0 == #[trigger] e0.with_value(key_label(k)),
{
    let sa = a.entries_spec();
    let sb = b.entries_spec();
    assert(sb.subrange(0, sb.len() as int) =~= sb);
    match r {
        Ok(mm) => {
            let m = mm.entries_spec();
            let tail = m.subrange(sa.len() as int, m.len() as int);
            assert forall|k: Seq<char>| #[trigger] key_set(m).contains(k) == key_set(sa).union(key_set(sb)).contains(k) by {
                if has_key(m, k) {
                    let i = choose|i: int| 0 <= i < m.len() && #[trigger] m[i].0 == k;
                    if i < sa.len() {
                        assert(sa[i].0 == k);
                    } else {
                        assert(tail[i - sa.len()] == m[i]);
                        lemma_fresh_keys(sa, sb, i - sa.len());
                    }
                }
                if has_key(sa, k) {
                    let i = choose|i: int| 0 <= i < sa.len() && #[trigger] sa[i].0 == k;
                    assert(m[i].0 == k);
                }
                if has_key(sb, k) && !has_key(sa, k) {
                    lemma_fresh_has(sa, sb, k);
                    let f = choose|f: int| 0 <= f < tail.len() && #[trigger] tail[f].0 == k;
                    assert(m[sa.len() + f].0 == k);
                }
            };
            assert(key_set(m) =~= key_set(sa).union(key_set(sb)));
            assert forall|k: Seq<char>| has_key(sa, k) && !has_key(sb, k) implies #[trigger] value_of(m, k) == value_of(sa, k) by {
                let i = choose|i: int| 0 <= i < sa.len() && #[trigger] sa[i].0 == k;
                lemma_value_at(sa, i);
                assert(m[i].0 == k);
                lemma_value_at(m, i);
            };
            assert forall|k: Seq<char>| has_key(sa, k) && has_key(sb, k) implies V::merge_spec(
                value_of(sa, k),
                value_of(sb, k),
                Ok(#[trigger] value_of(m, k)),
            ) by {
                let i = choose|i: int| 0 <= i < sa.len() && #[trigger] sa[i].0 == k;
                lemma_value_at(sa, i);
                assert(m[i].0 == k);
                lemma_value_at(m, i);
            };
            assert forall|k: Seq<char>| !has_key(sa, k) && has_key(sb, k) implies #[trigger] value_of(m, k) == value_of(sb, k) by {
                lemma_fresh_has(sa, sb, k);
                let f = choose|f: int| 0 <= f < tail.len() && #[trigger] tail[f].0 == k;
                assert(m[sa.len() + f] == tail[f]);
                lemma_fresh_keys(sa, sb, f);
                let x = choose|x: int| 0 <= x < sb.len() && sb[x] == fresh_entries(sa, sb)[f];
                lemma_value_at(sb, x);
                lemma_value_at(m, sa.len() + f);
            };
        },
        Err(e) => {
            let j = choose|j: int| fails_at(sa, sb, j, e);
            let e0 = choose|e0: ErrorView|
                V::merge_spec(value_of(sa, sb[j].0), sb[j].1, Err(e0)) && e == #[trigger] e0.with_value(key_label(sb[j].0));
            lemma_value_at(sb, j);
            assert(has_key(sb, sb[j].0));
        },
    }
}

/// With unique keys, the value under the key of entry `i` is that entry's.
pub proof fn lemma_value_at<V>(s: Entries<V>, i: int)
    requires
        unique_keys(s),
        0 <= i < s.len(),
    ensures
        has_key(s, s[i].0),
        value_of(s, s[i].0) == s[i].1,
        (choose|j: int| 0 <= j < s.len() && #[trigger] s[j].0 == s[i].0) == i,
{
    assert(has_key(s, s[i].0));
}

} // verus!
