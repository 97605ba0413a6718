//! A small map keyed by nick, kept as a list in which no nick occurs twice
//! (the well-formedness condition `wf`).

use vstd::prelude::*;
use crate::text::same_text;

verus! {

/// One nick with what is recorded for it.
struct Entry<V> {
    nick: String,
    value: V,
}

/// A finite map from nicks to values; its view is a `Map` from the nick's
/// text to the value's view.
pub struct NickMap<V> {
    entries: Vec<Entry<V>>,
}

impl<V> NickMap<V> {
    /// The position that holds `nick`, where one does.
    spec fn index_of(self, nick: Seq<char>) -> int {
        choose|i: int| 0 <= i < self.entries@.len() && self.entries@[i].nick@ == nick
    }

    spec fn holds(self, nick: Seq<char>) -> bool {
        exists|i: int| 0 <= i < self.entries@.len() && self.entries@[i].nick@ == nick
    }

    /// No nick occurs twice.
    pub closed spec fn wf(self) -> bool {
        forall|i: int, j: int|
            0 <= i < j < self.entries@.len() ==> self.entries@[i].nick@ != self.entries@[j].nick@
    }

}

impl<V: View> NickMap<V> {
    /// Under the invariant, position `i` is where its own nick is found.
    proof fn lemma_at(self, i: int)
        requires
            self.wf(),
            0 <= i < self.entries@.len(),
        ensures
            self@.contains_key(self.entries@[i].nick@),
            self@[self.entries@[i].nick@] == self.entries@[i].value@,
            self.index_of(self.entries@[i].nick@) == i,
    {
        let k = self.entries@[i].nick@;
        assert(self.holds(k));
        let j = self.index_of(k);
        assert(0 <= j < self.entries@.len() && self.entries@[j].nick@ == k);
        assert(i == j);
    }
}

impl<V: View> View for NickMap<V> {
    type V = Map<Seq<char>, V::V>;

    closed spec fn view(&self) -> Map<Seq<char>, V::V> {
        Map::new(|k: Seq<char>| self.holds(k), |k: Seq<char>| self.entries@[self.index_of(k)].value@)
    }
}

impl<V: View> NickMap<V> {
    /// The empty map.
    pub fn new() -> (m: Self)
        ensures
            m.wf(),
            m@ == Map::<Seq<char>, V::V>::empty(),
    {
        let m = NickMap { entries: Vec::new() };
        assert(m@ =~= Map::<Seq<char>, V::V>::empty());
        m
    }

    /// The number of nicks held.
    pub fn len(&self) -> (n: usize)
        requires
            self.wf(),
        ensures
            n == self@.len(),
            self@.dom().finite(),
    {
        proof {
            self.lemma_len(self.entries@.len() as int);
            assert(self@.dom() =~= self.keys_below(self.entries@.len() as int));
        }
        self.entries.len()
    }

    spec fn keys_below(self, n: int) -> Set<Seq<char>> {
        Set::new(|k: Seq<char>| exists|i: int| 0 <= i < n && self.entries@[i].nick@ == k)
    }

    proof fn lemma_len(self, n: int)
        requires
            self.wf(),
            0 <= n <= self.entries@.len(),
        ensures
            self.keys_below(n).finite(),
            self.keys_below(n).len() == n,
        decreases n,
    {
        if n == 0 {
            assert(self.keys_below(0) =~= Set::<Seq<char>>::empty());
        } else {
            self.lemma_len(n - 1);
            let k = self.entries@[n - 1].nick@;
            assert(self.keys_below(n) =~= self.keys_below(n - 1).insert(k));
            assert(!self.keys_below(n - 1).contains(k));
        }
    }

    /// Where `nick` is held, if it is.
    fn position(&self, nick: &str) -> (r: Option<usize>)
        ensures
            match r {
                Some(i) => i < self.entries@.len() && self.entries@[i as int].nick@ == nick@,
                None => !self.holds(nick@),
            },
    {
        let mut i: usize = 0;
        while i < self.entries.len()
            invariant
                i <= self.entries@.len(),
                forall|j: int| 0 <= j < i ==> self.entries@[j].nick@ != nick@,
            decreases self.entries@.len() - i,
        {
            if same_text(self.entries[i].nick.as_str(), nick) {
                return Some(i);
            }
            i = i + 1;
        }
        None
    }

    /// Whether `nick` has an entry.
    pub fn contains_key(&self, nick: &str) -> (r: bool)
        requires
            self.wf(),
        ensures
            r == self@.contains_key(nick@),
    {
        match self.position(nick) {
            Some(i) => {
                proof {
                    self.lemma_at(i as int);
                }
                true
            },
            None => false,
        }
    }

    /// The value recorded for `nick`, if there is one.
    pub fn get(&self, nick: &str) -> (r: Option<&V>)
        requires
            self.wf(),
        ensures
            match r {
                Some(v) => self@.contains_key(nick@) && self@[nick@] == v@,
                None => !self@.contains_key(nick@),
            },
    {
        match self.position(nick) {
            Some(i) => {
                proof {
                    self.lemma_at(i as int);
                }
                Some(&self.entries[i].value)
            },
            None => None,
        }
    }

    /// Records `value` for `nick`, in place of what was recorded before.
    pub fn insert(&mut self, nick: String, value: V)
        requires
            old(self).wf(),
        ensures
            final(self).wf(),
            final(self)@ == old(self)@.insert(nick@, value@),
    {
        let ghost before = *self;
        match self.position(nick.as_str()) {
            Some(i) => {
                self.entries.set(i, Entry { nick, value });
                proof {
                    let after = *self;
                    assert forall|k: Seq<char>| after.holds(k) == before.holds(k) by {
                        if before.holds(k) {
                            let j = before.index_of(k);
                            assert(after.entries@[j].nick@ == k);
                        }
                        if after.holds(k) {
                            let j = after.index_of(k);
                            assert(before.entries@[j].nick@ == k);
                        }
                    }
                    assert forall|k: Seq<char>| after.holds(k) implies after@[k] == before@.insert(
                        nick@,
                        value@,
                    )[k] by {
                        let j = after.index_of(k);
                        after.lemma_at(j);
                        before.lemma_at(j);
                    }
                    before.lemma_at(i as int);
                    assert(after@ =~= before@.insert(nick@, value@));
                }
            },
            None => {
                self.entries.push(Entry { nick, value });
                proof {
                    let after = *self;
                    let n = before.entries@.len() as int;
                    assert(after.entries@[n].nick@ == nick@);
                    assert forall|k: Seq<char>| after.holds(k) == (before.holds(k) || k == nick@) by {
                        if before.holds(k) {
                            let j = before.index_of(k);
                            assert(after.entries@[j].nick@ == k);
                        }
                        if after.holds(k) && k != nick@ {
                            let j = after.index_of(k);
                            assert(before.entries@[j].nick@ == k);
                        }
                    }
                    assert forall|k: Seq<char>| after.holds(k) implies after@[k] == before@.insert(
                        nick@,
                        value@,
                    )[k] by {
                        let j = after.index_of(k);
                        after.lemma_at(j);
                        if j < n {
                            before.lemma_at(j);
                        }
                    }
                    assert(after@ =~= before@.insert(nick@, value@));
                }
            },
        }
    }
}

} // verus!
