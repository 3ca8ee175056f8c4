//! The dictionary of entries, keyed by text.
//!
//! Entries are kept in a vector in which no key occurs twice; the store's
//! view is the map from each key to its entry, and `listing` gives the
//! entries in the order in which the store hands them out.

use vstd::prelude::*;
use crate::types::{EntryChire, EntryModel, Moment};

verus! {

/// A key and its entry, as mathematical values.
pub type Listing = Seq<(Seq<char>, EntryModel)>;

/// A dictionary from text keys to entries.
pub struct Store {
    items: Vec<(String, EntryChire)>,
    model: Ghost<Map<Seq<char>, EntryModel>>,
}

impl View for Store {
    type V = Map<Seq<char>, EntryModel>;

    closed spec fn view(&self) -> Map<Seq<char>, EntryModel> {
        self.model@
    }
}

impl Store {
    /// The entries in the order in which the store hands them out.
    pub closed spec fn listing(&self) -> Listing {
        self.items@.map_values(|p: (String, EntryChire)| (p.0@, p.1@))
    }

    /// The store's invariant: no key occurs twice, and the listing holds
    /// exactly the keys and entries of the view.
    pub closed spec fn wf(&self) -> bool {
        &&& forall|i: int, j: int|
            0 <= i < j < self.items@.len() ==> #[trigger] self.items@[i].0@
                != #[trigger] self.items@[j].0@
        &&& forall|i: int|
            0 <= i < self.items@.len() ==> #[trigger] self.model@.contains_key(self.items@[i].0@)
                && self.model@[self.items@[i].0@] == self.items@[i].1@
        &&& forall|k: Seq<char>|
            #[trigger] self.model@.contains_key(k) ==> exists|i: int|
                0 <= i < self.items@.len() && #[trigger] self.items@[i].0@ == k
        &&& self.model@.dom().finite()
        &&& self.model@.len() == self.items@.len()
    }

    /// The listing names each key of the view once, with its entry, and
    /// nothing else.
    pub proof fn lemma_listing_is_view(&self)
        requires
            self.wf(),
        ensures
            forall|i: int, j: int|
                0 <= i < j < self.listing().len() ==> #[trigger] self.listing()[i].0
                    != #[trigger] self.listing()[j].0,
            forall|i: int|
                0 <= i < self.listing().len() ==> #[trigger] self@.contains_key(
                    self.listing()[i].0,
                ) && self@[self.listing()[i].0] == self.listing()[i].1,
            forall|k: Seq<char>|
                #[trigger] self@.contains_key(k) ==> exists|i: int|
                    0 <= i < self.listing().len() && #[trigger] self.listing()[i].0 == k,
            self.listing().len() == self@.len(),
    {
        assert forall|k: Seq<char>| #[trigger] self@.contains_key(k) implies exists|i: int|
            0 <= i < self.listing().len() && #[trigger] self.listing()[i].0 == k by {
            let i = choose|i: int| 0 <= i < self.items@.len() && #[trigger] self.items@[i].0@ == k;
            assert(self.listing()[i].0 == k);
        }
    }

    /// An empty store.
    pub fn new() -> (s: Self)
        ensures
            s.wf(),
            s@ == Map::<Seq<char>, EntryModel>::empty(),
            s.listing() == Seq::<(Seq<char>, EntryModel)>::empty(),
    {
        let s = Store { items: Vec::new(), model: Ghost(Map::empty()) };
        assert(s.listing() =~= Seq::<(Seq<char>, EntryModel)>::empty());
        s
    }

    /// The number of entries.
    pub fn len(&self) -> (n: usize)
        requires
            self.wf(),
        ensures
            n == self.listing().len(),
            n == self@.len(),
    {
        self.items.len()
    }

    /// The key and entry at position `i` of the listing.
    pub fn entry_at(&self, i: usize) -> (r: (&String, &EntryChire))
        requires
            self.wf(),
            i < self.listing().len(),
        ensures
            r.0@ == self.listing()[i as int].0,
            r.1@ == self.listing()[i as int].1,
    {
        let p = &self.items[i];
        (&p.0, &p.1)
    }

    /// The position of `key` in the vector, if it is there.
    fn position(&self, key: &str) -> (r: Option<usize>)
        requires
            self.wf(),
        ensures
            match r {
                Some(i) => {
                    &&& i < self.items@.len()
                    &&& self.items@[i as int].0@ == key@
                    &&& self@.contains_key(key@)
                    &&& self.items@[i as int].1@ == self@[key@]
                },
                None => !self@.contains_key(key@),
            },
    {
        let k = key.to_owned();
        let mut i: usize = 0;
        while i < self.items.len()
            invariant
                self.wf(),
                k@ == key@,
                i <= self.items@.len(),
                forall|j: int| 0 <= j < i ==> #[trigger] self.items@[j].0@ != key@,
            decreases self.items@.len() - i,
        {
            if self.items[i].0 == k {
                assert(self.model@.contains_key(self.items@[i as int].0@));
                return Some(i);
            }
            i = i + 1;
        }
        None
    }

    /// Whether `key` has an entry.
    pub fn contains_key(&self, key: &str) -> (r: bool)
        requires
            self.wf(),
        ensures
            r == self@.contains_key(key@),
    {
        self.position(key).is_some()
    }

    /// The entry for `key`, if there is one.
    pub fn get(&self, key: &str) -> (r: Option<&EntryChire>)
        requires
            self.wf(),
        ensures
            match r {
                Some(e) => self@.contains_key(key@) && e@ == self@[key@],
                None => !self@.contains_key(key@),
            },
    {
        match self.position(key) {
            Some(i) => Some(&self.items[i].1),
            None => None,
        }
    }

    /// Stores `entry` under `key`, in place of any entry it had.
    pub fn insert(&mut self, key: String, entry: EntryChire)
        requires
            old(self).wf(),
        ensures
            final(self).wf(),
            final(self)@ == old(self)@.insert(key@, entry@),
    {
        let ghost k = key@;
        let ghost e = entry@;
        match self.position(key.as_str()) {
            Some(i) => {
                self.items.set(i, (key, entry));
                proof {
                    self.model@ = self.model@.insert(k, e);
                    assert forall|j: int|
                        0 <= j < self.items@.len() implies #[trigger] self.model@.contains_key(
                        self.items@[j].0@,
                    ) && self.model@[self.items@[j].0@] == self.items@[j].1@ by {
                        if j != i {
                            assert(old(self).items@[j] == self.items@[j]);
                            assert(old(self).model@.contains_key(old(self).items@[j].0@));
                            if j < i {
                                assert(old(self).items@[j].0@ != old(self).items@[i as int].0@);
                            } else {
                                assert(old(self).items@[i as int].0@ != old(self).items@[j].0@);
                            }
                        } else {
                            assert(self.items@[j].0@ == k);
                        }
                    }
                    assert forall|q: Seq<char>| #[trigger] self.model@.contains_key(q) implies exists|
                        j: int,
                    | 0 <= j < self.items@.len() && #[trigger] self.items@[j].0@ == q by {
                        if q != k {
                            let j = choose|j: int|
                                0 <= j < old(self).items@.len() && #[trigger] old(
                                    self,
                                ).items@[j].0@ == q;
                            assert(self.items@[j] == old(self).items@[j]);
                        } else {
                            assert(self.items@[i as int].0@ == q);
                        }
                    }
                }
            },
            None => {
                self.items.push((key, entry));
                proof {
                    self.model@ = self.model@.insert(k, e);
                    let n = old(self).items@.len() as int;
                    assert(self.items@[n].0@ == k);
                    assert forall|j: int|
                        0 <= j < self.items@.len() implies #[trigger] self.model@.contains_key(
                        self.items@[j].0@,
                    ) && self.model@[self.items@[j].0@] == self.items@[j].1@ by {
                        if j != n {
                            assert(old(self).items@[j] == self.items@[j]);
                            assert(old(self).model@.contains_key(old(self).items@[j].0@));
                        }
                    }
                    assert forall|q: Seq<char>| #[trigger] self.model@.contains_key(q) implies exists|
                        j: int,
                    | 0 <= j < self.items@.len() && #[trigger] self.items@[j].0@ == q by {
                        if q != k {
                            let j = choose|j: int|
                                0 <= j < old(self).items@.len() && #[trigger] old(
                                    self,
                                ).items@[j].0@ == q;
                            assert(self.items@[j] == old(self).items@[j]);
                        }
                    }
                    assert forall|a: int, b: int|
                        0 <= a < b < self.items@.len() implies #[trigger] self.items@[a].0@
                        != #[trigger] self.items@[b].0@ by {
                        if b == n {
                            assert(self.items@[a] == old(self).items@[a]);
                        } else {
                            assert(self.items@[a] == old(self).items@[a]);
                            assert(self.items@[b] == old(self).items@[b]);
                        }
                    }
                }
            },
        }
        assert(self.model@ =~= old(self)@.insert(k, e));
    }

    /// Removes the entry for `key` and returns it, if there was one.
    pub fn remove(&mut self, key: &str) -> (r: Option<EntryChire>)
        requires
            old(self).wf(),
        ensures
            final(self).wf(),
            final(self)@ == old(self)@.remove(key@),
            match r {
                Some(e) => old(self)@.contains_key(key@) && e@ == old(self)@[key@],
                None => !old(self)@.contains_key(key@),
            },
    {
        match self.position(key) {
            Some(i) => {
                let (_k, e) = self.items.remove(i);
                proof {
                    self.model@ = self.model@.remove(key@);
                    let o = old(self).items@;
                    assert forall|j: int|
                        0 <= j < self.items@.len() implies #[trigger] self.model@.contains_key(
                        self.items@[j].0@,
                    ) && self.model@[self.items@[j].0@] == self.items@[j].1@ by {
                        if j < i {
                            assert(self.items@[j] == o[j]);
                            assert(o[j].0@ != o[i as int].0@);
                            assert(old(self).model@.contains_key(o[j].0@));
                        } else {
                            assert(self.items@[j] == o[j + 1]);
                            assert(o[i as int].0@ != o[j + 1].0@);
                            assert(old(self).model@.contains_key(o[j + 1].0@));
                        }
                    }
                    assert forall|q: Seq<char>| #[trigger] self.model@.contains_key(q) implies exists|
                        j: int,
                    | 0 <= j < self.items@.len() && #[trigger] self.items@[j].0@ == q by {
                        let j = choose|j: int| 0 <= j < o.len() && #[trigger] o[j].0@ == q;
                        if j < i {
                            assert(self.items@[j] == o[j]);
                        } else {
                            assert(j != i);
                            assert(self.items@[j - 1] == o[j]);
                        }
                    }
                    assert forall|a: int, b: int|
                        0 <= a < b < self.items@.len() implies #[trigger] self.items@[a].0@
                        != #[trigger] self.items@[b].0@ by {
                        let a2 = if a < i { a } else { a + 1 };
                        let b2 = if b < i { b } else { b + 1 };
                        assert(self.items@[a] == o[a2]);
                        assert(self.items@[b] == o[b2]);
                    }
                }
                Some(e)
            },
            None => {
                assert(old(self)@.remove(key@) =~= old(self)@);
                None
            },
        }
    }

    /// Makes the entry for `key` expire at `expire_at`, if there is one;
    /// says whether there was.
    pub fn set_expiration(&mut self, key: &str, expire_at: Moment) -> (found: bool)
        requires
            old(self).wf(),
        ensures
            final(self).wf(),
            found == old(self)@.contains_key(key@),
            found ==> final(self)@ == old(self)@.insert(
                key@,
                EntryModel { data: old(self)@[key@].data, expire_at: Some(expire_at@) },
            ),
            !found ==> final(self)@ == old(self)@,
    {
        match self.position(key) {
            Some(i) => {
                let mut e = self.items[i].1.duplicate();
                e.set_expiration(expire_at);
                let k = self.items[i].0.clone();
                self.insert(k, e);
                true
            },
            None => false,
        }
    }
}

} // verus!
