//! A small map from text to values.

use crate::text::same_text;
use vstd::prelude::*;
use vstd::string::*;

verus! {

/// A map keyed by text. No key occurs twice.
pub struct TextMap<V> {
    entries: Vec<(String, V)>,
}

spec fn position<V>(s: Seq<(String, V)>, key: Seq<char>) -> int {
    choose|i: int| 0 <= i < s.len() && (#[trigger] s[i]).0@ == key
}

spec fn has_key<V>(s: Seq<(String, V)>, key: Seq<char>) -> bool {
    exists|i: int| 0 <= i < s.len() && (#[trigger] s[i]).0@ == key
}

impl<V> View for TextMap<V> {
    type V = Map<Seq<char>, V>;

    closed spec fn view(&self) -> Map<Seq<char>, V> {
        Map::new(
            |key: Seq<char>| has_key(self.entries@, key),
            |key: Seq<char>| self.entries@[position(self.entries@, key)].1,
        )
    }
}

impl<V> TextMap<V> {
    /// No key occurs twice.
    pub closed spec fn wf(&self) -> bool {
        forall|i: int, j: int|
            0 <= i < j < self.entries@.len() ==> (#[trigger] self.entries@[i]).0@ != (
            #[trigger] self.entries@[j]).0@
    }

    proof fn lemma_at(&self, i: int)
        requires
            self.wf(),
            0 <= i < self.entries@.len(),
        ensures
            self@.contains_key(self.entries@[i].0@),
            self@[self.entries@[i].0@] == self.entries@[i].1,
    {
        let key = self.entries@[i].0@;
        assert(has_key(self.entries@, key));
        let p = position(self.entries@, key);
        assert(0 <= p < self.entries@.len() && self.entries@[p].0@ == key);
        assert(p == i);
    }

    /// An empty map.
    pub fn new() -> (r: Self)
        ensures
            r.wf(),
            r@ == Map::<Seq<char>, V>::empty(),
    {
        let r = TextMap { entries: Vec::new() };
        assert(r@ =~= Map::<Seq<char>, V>::empty());
        r
    }

    fn find(&self, key: &str) -> (r: Option<usize>)
        requires
            self.wf(),
        ensures
            match r {
                Some(i) => i < self.entries@.len() && self.entries@[i as int].0@ == key@,
                None => !has_key(self.entries@, key@),
            },
    {
        let mut i: usize = 0;
        while i < self.entries.len()
            invariant
                i <= self.entries@.len(),
                forall|k: int| 0 <= k < i ==> (#[trigger] self.entries@[k]).0@ != key@,
            decreases self.entries@.len() - i,
        {
            if same_text(self.entries[i].0.as_str(), key) {
                return Some(i);
            }
            i += 1;
        }
        None
    }

    /// Whether `key` has a value.
    pub fn contains_key(&self, key: &str) -> (r: bool)
        requires
            self.wf(),
        ensures
            r == self@.contains_key(key@),
    {
        match self.find(key) {
            Some(i) => {
                proof {
                    self.lemma_at(i as int);
                }
                true
            },
            None => false,
        }
    }

    /// The value of `key`.
    pub fn get(&self, key: &str) -> (r: Option<&V>)
        requires
            self.wf(),
        ensures
            match r {
                Some(v) => self@.contains_key(key@) && *v == self@[key@],
                None => !self@.contains_key(key@),
            },
    {
        match self.find(key) {
            Some(i) => {
                proof {
                    self.lemma_at(i as int);
                }
                Some(&self.entries[i].1)
            },
            None => None,
        }
    }

    /// Takes the value of `key` out.
    pub fn remove(&mut self, key: &str) -> (r: Option<V>)
        requires
            old(self).wf(),
        ensures
            final(self).wf(),
            final(self)@ == old(self)@.remove(key@),
            match r {
                Some(v) => old(self)@.contains_key(key@) && v == old(self)@[key@],
                None => !old(self)@.contains_key(key@),
            },
    {
        match self.find(key) {
            Some(i) => {
                proof {
                    self.lemma_at(i as int);
                }
                let entry = self.entries.remove(i);
                proof {
                    let was = old(self).entries@;
                    let now = self.entries@;
                    assert(self.wf()) by {
                        assert forall|a: int, b: int| 0 <= a < b < now.len() implies (
                        #[trigger] now[a]).0@ != (#[trigger] now[b]).0@ by {
                            let a0 = if a < i { a } else { a + 1 };
                            let b0 = if b < i { b } else { b + 1 };
                            assert(now[a] == was[a0] && now[b] == was[b0]);
                        }
                    }
                    assert forall|k: Seq<char>| #[trigger]
                        self@.contains_key(k) <==> old(self)@.remove(key@).contains_key(k) by {
                        if has_key(was, k) && k != key@ {
                            let p = position(was, k);
                            let q = if p < i { p } else { p - 1 };
                            assert(now[q] == was[p]);
                        }
                        if has_key(now, k) {
                            let q = position(now, k);
                            let p = if q < i { q } else { q + 1 };
                            assert(now[q] == was[p]);
                            assert(was[p].0@ == k);
                        }
                    }
                    assert forall|k: Seq<char>| #[trigger] self@.contains_key(k) implies self@[k]
                        == old(self)@[k] by {
                        let q = position(now, k);
                        let p = if q < i { q } else { q + 1 };
                        assert(now[q] == was[p]);
                        old(self).lemma_at(p);
                    }
                    assert(self@ =~= old(self)@.remove(key@));
                }
                Some(entry.1)
            },
            None => {
                assert(self@ =~= old(self)@.remove(key@));
                None
            },
        }
    }

    /// Gives `key` the value `value` and hands back the one it had.
    pub fn insert(&mut self, key: String, value: V) -> (r: Option<V>)
        requires
            old(self).wf(),
        ensures
            final(self).wf(),
            final(self)@ == old(self)@.insert(key@, value),
            match r {
                Some(v) => old(self)@.contains_key(key@) && v == old(self)@[key@],
                None => !old(self)@.contains_key(key@),
            },
    {
        let previous = self.remove(key.as_str());
        let ghost was = self.entries@;
        let ghost cleared = *self;
        proof {
            assert(!cleared@.contains_key(key@));
            assert(!has_key(was, key@));
        }
        self.entries.push((key, value));
        proof {
            let now = self.entries@;
            assert(now.drop_last() =~= was);
            assert forall|a: int, b: int| 0 <= a < b < now.len() implies (#[trigger] now[a]).0@
                != (#[trigger] now[b]).0@ by {
                assert(now[a] == was[a]);
                if b < was.len() {
                    assert(now[b] == was[b]);
                }
            }
            self.lemma_at(was.len() as int);
            assert forall|k: Seq<char>| #[trigger]
                self@.contains_key(k) <==> cleared@.insert(key@, value).contains_key(k) by {
                if has_key(was, k) {
                    let p = position(was, k);
                    assert(now[p] == was[p]);
                }
                if has_key(now, k) && k != key@ {
                    let p = position(now, k);
                    assert(now[p] == was[p]);
                }
            }
            assert forall|k: Seq<char>| self@.contains_key(k) && k != key@ implies #[trigger] self@[k]
                == cleared@[k] by {
                let p = position(now, k);
                assert(now[p] == was[p]);
                cleared.lemma_at(p);
            }
            assert(self@ =~= cleared@.insert(key@, value));
            assert(cleared@.insert(key@, value) =~= old(self)@.insert(key@, value));
        }
        previous
    }

    /// Drops every entry.
    pub fn clear(&mut self)
        ensures
            final(self).wf(),
            final(self)@ == Map::<Seq<char>, V>::empty(),
    {
        self.entries.clear();
        assert(self@ =~= Map::<Seq<char>, V>::empty());
    }
}

} // verus!
