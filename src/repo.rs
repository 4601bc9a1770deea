use vstd::prelude::*;
use crate::model::Model;
use crate::store::DataStore;

verus! {

/// Whether some record in `s` has identity `k`.
pub open spec fn has_key<M: Model>(s: Seq<M::V>, k: <M::ID as View>::V) -> bool {
    exists|i: int| 0 <= i < s.len() && M::key(#[trigger] s[i]) == k
}

/// The position of the record with identity `k` in `s` (meaningful when `has_key`).
pub open spec fn index_of<M: Model>(s: Seq<M::V>, k: <M::ID as View>::V) -> int {
    choose|i: int| 0 <= i < s.len() && M::key(#[trigger] s[i]) == k
}

/// No two records of `s` share an identity.
pub open spec fn unique_keys<M: Model>(s: Seq<M::V>) -> bool {
    forall|i: int, j: int|
        0 <= i < s.len() && 0 <= j < s.len() && i != j ==> M::key(#[trigger] s[i]) != M::key(
            #[trigger] s[j],
        )
}

/// The record with identity `k`, if `s` holds one.
pub open spec fn lookup<M: Model>(s: Seq<M::V>, k: <M::ID as View>::V) -> Option<M::V> {
    if has_key::<M>(s, k) {
        Some(s[index_of::<M>(s, k)])
    } else {
        None
    }
}

/// The records after adding `v`: a record with the same identity absorbs it,
/// otherwise it is appended.
pub open spec fn add_spec<M: Model>(s: Seq<M::V>, v: M::V) -> Seq<M::V> {
    let k = M::key(v);
    if has_key::<M>(s, k) {
        let i = index_of::<M>(s, k);
        s.update(i, M::merged(s[i], v))
    } else {
        s.push(v)
    }
}

/// The records after adding each of `vs` in order.
pub open spec fn add_all<M: Model>(s: Seq<M::V>, vs: Seq<M::V>) -> Seq<M::V>
    decreases vs.len(),
{
    if vs.len() == 0 {
        s
    } else {
        add_spec::<M>(add_all::<M>(s, vs.drop_last()), vs.last())
    }
}

/// The records of `s` that match the normalized `term`.
pub open spec fn search_spec<M: Model>(s: Seq<M::V>, term: Seq<char>) -> Seq<M::V> {
    s.filter(|v: M::V| M::matches(v, term))
}

/// The views of a sequence of records.
pub open spec fn views<M: Model>(ms: Seq<M>) -> Seq<M::V> {
    ms.map_values(|m: M| m@)
}

/// Adding a record to records with unique identities leaves identities unique.
pub proof fn lemma_add_keeps_keys_unique<M: Model>(s: Seq<M::V>, v: M::V)
    requires
        unique_keys::<M>(s),
    ensures
        unique_keys::<M>(add_spec::<M>(s, v)),
{
    let k = M::key(v);
    let t = add_spec::<M>(s, v);
    if has_key::<M>(s, k) {
        let i = index_of::<M>(s, k);
        M::lemma_merge_keeps_key(s[i], v);
        assert forall|a: int| 0 <= a < t.len() implies M::key(#[trigger] t[a]) == M::key(s[a]) by {}
    } else {
        assert forall|a: int, b: int|
            0 <= a < t.len() && 0 <= b < t.len() && a != b implies M::key(#[trigger] t[a])
            != M::key(#[trigger] t[b]) by {
            if a < s.len() && b < s.len() {
            } else if a < s.len() {
                assert(M::key(t[a]) == M::key(s[a]));
            } else {
                assert(M::key(t[b]) == M::key(s[b]));
            }
        }
    }
}

/// After any sequence of additions, starting from records with unique
/// identities, no two stored records share an identity.
pub proof fn lemma_add_all_keeps_keys_unique<M: Model>(s: Seq<M::V>, vs: Seq<M::V>)
    requires
        unique_keys::<M>(s),
    ensures
        unique_keys::<M>(add_all::<M>(s, vs)),
    decreases vs.len(),
{
    if vs.len() > 0 {
        lemma_add_all_keeps_keys_unique::<M>(s, vs.drop_last());
        lemma_add_keeps_keys_unique::<M>(add_all::<M>(s, vs.drop_last()), vs.last());
    }
}

/// Adding the same record a second time stores nothing new: the record with
/// its identity absorbs it, so where absorbing an identical record changes
/// nothing, the records are exactly those after the first addition.
pub proof fn lemma_add_twice<M: Model>(s: Seq<M::V>, v: M::V)
    requires
        unique_keys::<M>(s),
    ensures
        ({
            let once = add_spec::<M>(s, v);
            let twice = add_spec::<M>(once, v);
            let i = index_of::<M>(once, M::key(v));
            &&& has_key::<M>(once, M::key(v))
            &&& twice.len() == once.len()
            &&& twice == once.update(i, M::merged(once[i], v))
            &&& (M::merged(once[i], v) == once[i] ==> twice == once)
        }),
{
    let k = M::key(v);
    let once = add_spec::<M>(s, v);
    if has_key::<M>(s, k) {
        let i = index_of::<M>(s, k);
        M::lemma_merge_keeps_key(s[i], v);
        assert(M::key(once[i]) == k);
    } else {
        assert(M::key(once[s.len() as int]) == k);
    }
    assert(has_key::<M>(once, k));
    let j = index_of::<M>(once, k);
    if M::merged(once[j], v) == once[j] {
        assert(once.update(j, M::merged(once[j], v)) =~= once);
    }
}

/// In records with unique identities, the record with identity `k` is the
/// one `index_of` names.
pub proof fn lemma_index_of_unique<M: Model>(s: Seq<M::V>, k: <M::ID as View>::V, i: int)
    requires
        unique_keys::<M>(s),
        0 <= i < s.len(),
        M::key(s[i]) == k,
    ensures
        has_key::<M>(s, k),
        index_of::<M>(s, k) == i,
{
    assert(M::key(s[i]) == k);
    let j = index_of::<M>(s, k);
    assert(M::key(s[j]) == k);
}

/// Adding a record with a new identity and then another with the same
/// identity stores the first record having absorbed the second.
pub proof fn lemma_add_then_merge<M: Model>(s: Seq<M::V>, first: M::V, second: M::V)
    requires
        unique_keys::<M>(s),
        !has_key::<M>(s, M::key(first)),
        M::key(second) == M::key(first),
    ensures
        lookup::<M>(add_spec::<M>(add_spec::<M>(s, first), second), M::key(first)) == Some(
            M::merged(first, second),
        ),
        add_spec::<M>(add_spec::<M>(s, first), second).len() == s.len() + 1,
{
    let k = M::key(first);
    let once = add_spec::<M>(s, first);
    lemma_add_keeps_keys_unique::<M>(s, first);
    lemma_index_of_unique::<M>(once, k, s.len() as int);
    let twice = add_spec::<M>(once, second);
    lemma_add_keeps_keys_unique::<M>(once, second);
    M::lemma_merge_keeps_key(first, second);
    assert(twice[s.len() as int] == M::merged(first, second));
    lemma_index_of_unique::<M>(twice, k, s.len() as int);
}

/// Listing the records twice, with no change in between, gives the same
/// records both times.
pub proof fn lemma_items_stable<M: Model>(repo: Repo<M>, first: Seq<M>, second: Seq<M>)
    requires
        views::<M>(first) == repo@,
        views::<M>(second) == repo@,
    ensures
        views::<M>(first).to_multiset() == views::<M>(second).to_multiset(),
{
}

/// A keyed collection of records, at most one per identity.
#[derive(Debug, Clone)]
pub struct Repo<M: Model> {
    storage: Vec<M>,
}

impl<M: Model> View for Repo<M> {
    type V = Seq<M::V>;

    closed spec fn view(&self) -> Seq<M::V> {
        views::<M>(self.storage@)
    }
}

impl<M: Model> Repo<M> {
    /// Identities are unique among the stored records.
    pub open spec fn wf(&self) -> bool {
        unique_keys::<M>(self@)
    }

    /// An empty repository.
    pub fn new() -> (r: Self)
        ensures
            r.wf(),
            r@ == Seq::<M::V>::empty(),
    {
        Self::with_capacity(0)
    }

    /// An empty repository with room for `capacity` records.
    pub fn with_capacity(capacity: usize) -> (r: Self)
        ensures
            r.wf(),
            r@ == Seq::<M::V>::empty(),
    {
        let r = Repo { storage: Vec::with_capacity(capacity) };
        assert(r@ =~= Seq::<M::V>::empty());
        r
    }

    /// The position of the record with identity `id`, if any.
    fn position(&self, id: &M::ID) -> (r: Option<usize>)
        requires
            self.wf(),
        ensures
            match r {
                Some(i) => has_key::<M>(self@, id@) && i == index_of::<M>(self@, id@) && i
                    < self@.len(),
                None => !has_key::<M>(self@, id@),
            },
    {
        let mut i: usize = 0;
        while i < self.storage.len()
            invariant
                i <= self.storage@.len(),
                self.wf(),
                forall|j: int| 0 <= j < i ==> M::key(#[trigger] self@[j]) != id@,
            decreases self.storage@.len() - i,
        {
            assert(self@[i as int] == self.storage@[i as int]@);
            if self.storage[i].has_id(id) {
                proof {
                    let c = index_of::<M>(self@, id@);
                    assert(M::key(self@[i as int]) == id@);
                    assert(has_key::<M>(self@, id@));
                    assert(M::key(self@[c]) == id@);
                }
                return Some(i);
            }
            i = i + 1;
        }
        None
    }

    /// The record with identity `id`, if one is stored.
    pub fn get(&self, id: &M::ID) -> (r: Option<&M>)
        requires
            self.wf(),
        ensures
            match r {
                Some(e) => lookup::<M>(self@, id@) == Some(e@),
                None => lookup::<M>(self@, id@) is None,
            },
    {
        match self.position(id) {
            Some(i) => Some(&self.storage[i]),
            None => None,
        }
    }

    /// The record with identity `id`, for changing in place. The repository
    /// afterwards holds whatever the caller left behind the reference; a
    /// caller that keeps the identity keeps identities unique.
    pub fn get_mut(&mut self, id: &M::ID) -> (r: Option<&mut M>)
        requires
            old(self).wf(),
        ensures
            match r {
                Some(e) => {
                    &&& lookup::<M>(old(self)@, id@) == Some(e@)
                    &&& final(self)@ == old(self)@.update(
                        index_of::<M>(old(self)@, id@),
                        final(e)@,
                    )
                },
                None => lookup::<M>(old(self)@, id@) is None && final(self)@ == old(self)@,
            },
    {
        match self.position(id) {
            Some(i) => {
                let e = &mut self.storage[i];
                Some(e)
            },
            None => None,
        }
    }

    /// Adds a record: it is stored under its identity, or, where a record with
    /// that identity is stored already, the stored one absorbs it.
    pub fn add_model(&mut self, model: M)
        requires
            old(self).wf(),
        ensures
            final(self).wf(),
            final(self)@ == add_spec::<M>(old(self)@, model@),
    {
        let ghost s = self@;
        let ghost v = model@;
        match self.position(model.id()) {
            None => {
                self.storage.push(model);
                assert(self@ =~= s.push(v));
            },
            Some(i) => {
                let e = &mut self.storage[i];
                e.merge_with_other(model);
                assert(self@ =~= s.update(i as int, M::merged(s[i as int], v)));
            },
        }
        proof {
            lemma_add_keeps_keys_unique::<M>(s, v);
        }
    }

    /// The stored records that match `term` once it is normalized.
    pub fn text_search(&self, term: &str) -> (r: Vec<&M>)
        ensures
            r@.map_values(|e: &M| e@) == search_spec::<M>(self@, M::normalized(term@)),
    {
        let norm = M::normalize_search_term(term);
        let ghost n = norm@;
        let ghost all = self@;
        let mut found: Vec<&M> = Vec::new();
        let mut i: usize = 0;
        while i < self.storage.len()
            invariant
                i <= self.storage@.len(),
                all == self@,
                n == M::normalized(term@),
                n == norm@,
                found@.map_values(|e: &M| e@) == search_spec::<M>(all.take(i as int), n),
            decreases self.storage@.len() - i,
        {
            let model = &self.storage[i];
            let ghost prev = found@;
            proof {
                let pre = all.take(i as int);
                let post = all.take(i + 1);
                assert(post.drop_last() =~= pre);
                assert(post.last() == model@);
                reveal(Seq::filter);
                assert(search_spec::<M>(post, n) == if M::matches(model@, n) {
                    search_spec::<M>(pre, n).push(model@)
                } else {
                    search_spec::<M>(pre, n)
                });
            }
            if model.matches_text_search(norm.as_str()) {
                found.push(model);
                assert(found@.map_values(|e: &M| e@) =~= prev.map_values(|e: &M| e@).push(model@));
            }
            i = i + 1;
        }
        assert(all.take(i as int) =~= all);
        found
    }

    /// Every stored record.
    pub fn items(&self) -> (r: &[M])
        ensures
            views::<M>(r@) == self@,
    {
        self.storage.as_slice()
    }

    /// Adds each of `models` in order, as `add_model` does.
    pub fn add_models(&mut self, models: Vec<M>)
        requires
            old(self).wf(),
        ensures
            final(self).wf(),
            final(self)@ == add_all::<M>(old(self)@, views::<M>(models@)),
    {
        let ghost start = self@;
        let ghost vs = views::<M>(models@);
        let mut rest = models;
        let total: usize = rest.len();
        let mut k: usize = 0;
        while rest.len() > 0
            invariant
                vs.len() == total,
                self.wf(),
                k + rest@.len() == vs.len(),
                views::<M>(rest@) == vs.subrange(k as int, vs.len() as int),
                self@ == add_all::<M>(start, vs.take(k as int)),
            decreases rest@.len(),
        {
            let ghost before = rest@;
            let model = rest.remove(0);
            proof {
                assert(views::<M>(before)[0] == before[0]@);
                assert(vs[k as int] == views::<M>(before)[0]);
                assert(model@ == vs[k as int]);
                assert(vs.take(k + 1).drop_last() =~= vs.take(k as int));
                assert(rest@ =~= before.subrange(1, before.len() as int));
                assert forall|j: int| 0 <= j < rest@.len() implies #[trigger] views::<M>(rest@)[j]
                    == vs[k + 1 + j] by {
                    assert(views::<M>(before)[j + 1] == before[j + 1]@);
                    assert(vs.subrange(k as int, vs.len() as int)[j + 1] == vs[k + 1 + j]);
                }
                assert(views::<M>(rest@) =~= vs.subrange(k + 1, vs.len() as int));
            }
            self.add_model(model);
            k = k + 1;
        }
        assert(vs.take(k as int) =~= vs);
    }

    /// Adds every record that `store` produces, in the order produced.
    pub fn load<S: DataStore<M>>(&mut self, store: S)
        requires
            old(self).wf(),
        ensures
            final(self).wf(),
            exists|vs: Seq<M::V>| final(self)@ == add_all::<M>(old(self)@, vs),
    {
        let models = store.into_models();
        self.add_models(models);
    }
}

} // verus!
