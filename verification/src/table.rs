//! A small table keyed by text, for the places where entries are looked up
//! by the exact characters of a string.

use vstd::prelude::*;
use crate::text::same_text;

verus! {

/// A map from strings to values. Keys are compared character by character;
/// the table's value is the map from each key's characters to the value of
/// what is held under it.
pub struct TextMap<V: View> {
    keys: Vec<String>,
    values: Vec<V>,
    index: Ghost<Map<Seq<char>, V::V>>,
}

impl<V: View> View for TextMap<V> {
    type V = Map<Seq<char>, V::V>;

    closed spec fn view(&self) -> Map<Seq<char>, V::V> {
        self.index@
    }
}

impl<V: View> TextMap<V> {
    /// Each key is held once, beside its value.
    pub closed spec fn wf(&self) -> bool {
        &&& self.keys@.len() == self.values@.len()
        &&& self.index@.dom().finite()
        &&& self.index@.dom().len() == self.keys@.len()
        &&& forall|i: int|
            0 <= i < self.keys@.len() ==> self.index@.contains_key((#[trigger] self.keys@[i])@)
                && self.index@[self.keys@[i]@] == self.values@[i]@
        &&& forall|k: Seq<char>| #[trigger]
            self.index@.contains_key(k) ==> exists|i: int|
                0 <= i < self.keys@.len() && (#[trigger] self.keys@[i])@ == k
        &&& forall|i: int, j: int|
            0 <= i < j < self.keys@.len() ==> (#[trigger] self.keys@[i])@ != (
            #[trigger] self.keys@[j])@
    }

    /// The empty table.
    pub fn new() -> (t: Self)
        ensures
            t.wf(),
            t@ == Map::<Seq<char>, V::V>::empty(),
    {
        TextMap { keys: Vec::new(), values: Vec::new(), index: Ghost(Map::empty()) }
    }

    /// The number of entries.
    pub fn len(&self) -> (n: usize)
        requires
            self.wf(),
        ensures
            n == self@.len(),
            self@.dom().finite(),
    {
        self.keys.len()
    }

    fn position(&self, key: &str) -> (r: Option<usize>)
        requires
            self.wf(),
        ensures
            match r {
                Some(i) => i < self.keys@.len() && self.keys@[i as int]@ == key@
                    && self@.contains_key(key@) && self@[key@] == self.values@[i as int]@,
                None => !self@.contains_key(key@),
            },
    {
        let mut i: usize = 0;
        while i < self.keys.len()
            invariant
                self.wf(),
                i <= self.keys@.len(),
                forall|j: int| 0 <= j < i ==> (#[trigger] self.keys@[j])@ != key@,
            decreases self.keys@.len() - i,
        {
            if same_text(self.keys[i].as_str(), key) {
                return Some(i);
            }
            i += 1;
        }
        None
    }

    /// The value under `key`, if there is one.
    pub fn get(&self, key: &str) -> (r: Option<&V>)
        requires
            self.wf(),
        ensures
            match r {
                Some(v) => self@.contains_key(key@) && v@ == self@[key@],
                None => !self@.contains_key(key@),
            },
    {
        match self.position(key) {
            Some(i) => Some(&self.values[i]),
            None => None,
        }
    }

    /// Puts `value` under `key`, in place of what was there.
    pub fn insert(&mut self, key: &str, value: V)
        requires
            old(self).wf(),
        ensures
            final(self).wf(),
            final(self)@ == old(self)@.insert(key@, value@),
    {
        let found = self.position(key);
        match found {
            Some(i) => {
                self.values.set(i, value);
            },
            None => {
                self.keys.push(key.to_owned());
                self.values.push(value);
            },
        }
        proof {
            let before = old(self).keys@;
            let index = old(self).index@;
            self.index@ = index.insert(key@, value@);
            assert forall|k: int| 0 <= k < self.keys@.len() implies self.index@.contains_key(
                (#[trigger] self.keys@[k])@,
            ) && self.index@[self.keys@[k]@] == self.values@[k]@ by {
                if k < before.len() && self.keys@[k]@ != key@ {
                    assert(self.keys@[k] == before[k]);
                    assert(index.contains_key(before[k]@));
                }
            }
            assert forall|p: Seq<char>| #[trigger] self.index@.contains_key(p) implies exists|k: int|
                0 <= k < self.keys@.len() && (#[trigger] self.keys@[k])@ == p by {
                if p == key@ {
                    let k = match found {
                        Some(i) => i as int,
                        None => before.len() as int,
                    };
                    assert(self.keys@[k]@ == p);
                } else {
                    assert(index.contains_key(p));
                    let k = choose|k: int| 0 <= k < before.len() && (#[trigger] before[k])@ == p;
                    assert(self.keys@[k]@ == p);
                }
            }
            assert forall|i: int, j: int| 0 <= i < j < self.keys@.len() implies (
            #[trigger] self.keys@[i])@ != (#[trigger] self.keys@[j])@ by {
                if j < before.len() {
                    assert(self.keys@[i] == before[i]);
                    assert(self.keys@[j] == before[j]);
                } else {
                    assert(self.keys@[i] == before[i]);
                    assert(index.contains_key(before[i]@));
                }
            }
        }
    }

    /// Takes out the entry under `key` and returns its value.
    pub fn remove(&mut self, key: &str) -> (r: Option<V>)
        requires
            old(self).wf(),
        ensures
            final(self).wf(),
            final(self)@ == old(self)@.remove(key@),
            match r {
                Some(v) => old(self)@.contains_key(key@) && v@ == old(self)@[key@],
                None => !old(self)@.contains_key(key@),
            },
    {
        match self.position(key) {
            None => {
                assert(self@ =~= old(self)@.remove(key@));
                None
            },
            Some(i) => {
                let _ = self.keys.remove(i);
                let v = self.values.remove(i);
                proof {
                    let before = old(self).keys@;
                    let index = old(self).index@;
                    self.index@ = index.remove(key@);
                    assert forall|k: int| 0 <= k < self.keys@.len() implies self.index@.contains_key(
                        (#[trigger] self.keys@[k])@,
                    ) && self.index@[self.keys@[k]@] == self.values@[k]@ by {
                        let o = if k < i {
                            k
                        } else {
                            k + 1
                        };
                        assert(self.keys@[k] == before[o]);
                        assert(index.contains_key(before[o]@));
                    }
                    assert forall|p: Seq<char>| #[trigger] self.index@.contains_key(p) implies exists|
                        k: int,
                    |
                        0 <= k < self.keys@.len() && (#[trigger] self.keys@[k])@ == p by {
                        assert(index.contains_key(p));
                        let o = choose|o: int| 0 <= o < before.len() && (#[trigger] before[o])@ == p;
                        let k = if o < i {
                            o
                        } else {
                            o - 1
                        };
                        assert(self.keys@[k]@ == p);
                    }
                    assert forall|a: int, b: int| 0 <= a < b < self.keys@.len() implies (
                    #[trigger] self.keys@[a])@ != (#[trigger] self.keys@[b])@ by {
                        let oa = if a < i {
                            a
                        } else {
                            a + 1
                        };
                        let ob = if b < i {
                            b
                        } else {
                            b + 1
                        };
                        assert(self.keys@[a] == before[oa]);
                        assert(self.keys@[b] == before[ob]);
                    }
                }
                Some(v)
            },
        }
    }
}

} // verus!
