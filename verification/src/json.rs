//! JSON values, carried through as `serde_json` holds them.

use vstd::prelude::*;
use crate::text::str_equal;

verus! {

/// A JSON value, `serde_json::Value`; carried through, never looked into.
#[verifier::external_type_specification]
#[verifier::external_body]
pub struct ExJsonValue(serde_json::Value);

/// `Clone` for `serde_json::Value`: a deep copy. The value is opaque here;
/// nothing is stated about the copy.
pub assume_specification[ <serde_json::Value as Clone>::clone ](v: &serde_json::Value) -> (r: serde_json::Value);

/// Builds `serde_json::Value::Object(serde_json::Map::new())`, the empty JSON
/// object. The value is opaque here; nothing is stated about it.
#[verifier::external_body]
pub fn empty_json_object() -> serde_json::Value {
    serde_json::Value::Object(serde_json::Map::new())
}


/// A map from strings to JSON values, in insertion order, one entry per key.
#[derive(Debug, Clone)]
pub struct JsonMap {
    keys: Vec<String>,
    values: Vec<serde_json::Value>,
}

impl JsonMap {
    /// The keys, in insertion order.
    pub closed spec fn keys(&self) -> Seq<Seq<char>> {
        self.keys@.map_values(|k: String| k@)
    }

    /// The value of key `k`, if it has one.
    pub closed spec fn entry(&self, k: Seq<char>) -> Option<serde_json::Value> {
        if exists|i: int| 0 <= i < self.keys@.len() && (#[trigger] self.keys@[i])@ == k {
            Some(self.values@[choose|i: int| 0 <= i < self.keys@.len() && (#[trigger] self.keys@[i])@ == k])
        } else {
            None
        }
    }

    /// The map's invariant: keys and values line up, one entry per key.
    pub closed spec fn wf(&self) -> bool {
        &&& self.keys@.len() == self.values@.len()
        &&& forall|i: int, j: int|
            0 <= i < self.keys@.len() && 0 <= j < self.keys@.len() && i != j ==> (#[trigger] self.keys@[i])@
                != (#[trigger] self.keys@[j])@
    }

    proof fn lemma_entry_at(&self, i: int)
        requires
            self.wf(),
            0 <= i < self.keys@.len(),
        ensures
            self.entry(self.keys@[i]@) == Some(self.values@[i]),
    {
        let k = self.keys@[i]@;
        let c = choose|c: int| 0 <= c < self.keys@.len() && (#[trigger] self.keys@[c])@ == k;
        assert(0 <= c < self.keys@.len() && self.keys@[c]@ == k);
    }

    /// An empty map.
    pub fn new() -> (r: Self)
        ensures
            r.wf(),
            r.keys().len() == 0,
            forall|k: Seq<char>| r.entry(k) is None,
    {
        JsonMap { keys: Vec::new(), values: Vec::new() }
    }

    fn find(&self, key: &str) -> (r: Option<usize>)
        requires
            self.wf(),
        ensures
            r is None ==> self.entry(key@) is None && !self.keys().contains(key@),
            r matches Some(i) ==> i < self.keys@.len() && self.keys@[i as int]@ == key@ && self.entry(key@)
                == Some(self.values@[i as int]),
    {
        let mut i: usize = 0;
        while i < self.keys.len()
            invariant
                self.wf(),
                i <= self.keys@.len(),
                forall|j: int| 0 <= j < i ==> (#[trigger] self.keys@[j])@ != key@,
            decreases self.keys.len() - i,
        {
            if str_equal(self.keys[i].as_str(), key) {
                proof {
                    self.lemma_entry_at(i as int);
                }
                return Some(i);
            }
            i = i + 1;
        }
        assert(!self.keys().contains(key@)) by {
            if self.keys().contains(key@) {
                let j = choose|j: int| 0 <= j < self.keys().len() && self.keys()[j] == key@;
                assert(self.keys()[j] == self.keys@[j]@);
            }
        }
        None
    }

    /// Sets `key` to `value`; every other key keeps its value.
    pub fn insert(&mut self, key: String, value: serde_json::Value)
        requires
            old(self).wf(),
        ensures
            final(self).wf(),
            final(self).entry(key@) == Some(value),
            forall|k: Seq<char>| k != key@ ==> final(self).entry(k) == old(self).entry(k),
            old(self).keys().contains(key@) ==> final(self).keys() == old(self).keys(),
            !old(self).keys().contains(key@) ==> final(self).keys() == old(self).keys().push(key@),
    {
        let ghost kv = key@;
        match self.find(key.as_str()) {
            Some(i) => {
                self.values.set(i, value);
                proof {
                    assert(old(self).keys()[i as int] == kv);
                    self.lemma_entry_at(i as int);
                    assert forall|k: Seq<char>| k != kv implies self.entry(k) == old(self).entry(k) by {
                        if exists|j: int| 0 <= j < self.keys@.len() && (#[trigger] self.keys@[j])@ == k {
                            let j = choose|j: int| 0 <= j < self.keys@.len() && (#[trigger] self.keys@[j])@ == k;
                            self.lemma_entry_at(j);
                            old(self).lemma_entry_at(j);
                        }
                    }
                    assert(self.keys() =~= old(self).keys());
                }
            },
            None => {
                self.keys.push(key);
                self.values.push(value);
                let ghost last = self.keys@.len() - 1;
                assert forall|a: int, b: int|
                    0 <= a < self.keys@.len() && 0 <= b < self.keys@.len() && a != b implies (
                    #[trigger] self.keys@[a])@ != (#[trigger] self.keys@[b])@ by {
                    if a == last {
                        assert(old(self).keys()[b] == self.keys@[b]@);
                    } else if b == last {
                        assert(old(self).keys()[a] == self.keys@[a]@);
                    }
                }
                proof {
                    self.lemma_entry_at(last);
                    assert forall|k: Seq<char>| k != kv implies self.entry(k) == old(self).entry(k) by {
                        if exists|j: int| 0 <= j < self.keys@.len() && (#[trigger] self.keys@[j])@ == k {
                            let j = choose|j: int| 0 <= j < self.keys@.len() && (#[trigger] self.keys@[j])@ == k;
                            assert(j != last);
                            self.lemma_entry_at(j);
                            old(self).lemma_entry_at(j);
                        } else {
                            if exists|j: int| 0 <= j < old(self).keys@.len() && (#[trigger] old(self).keys@[j])@ == k {
                                let j = choose|j: int| 0 <= j < old(self).keys@.len() && (#[trigger] old(self).keys@[j])@ == k;
                                assert(self.keys@[j] == old(self).keys@[j]);
                            }
                        }
                    }
                    assert(self.keys() =~= old(self).keys().push(kv));
                }
            },
        }
    }

    /// The value of `key`, if any.
    pub fn get(&self, key: &str) -> (r: Option<&serde_json::Value>)
        requires
            self.wf(),
        ensures
            match r {
                Some(v) => self.entry(key@) == Some(*v),
                None => self.entry(key@) is None,
            },
    {
        match self.find(key) {
            Some(i) => Some(&self.values[i]),
            None => None,
        }
    }

    /// Whether `key` has a value.
    pub fn contains_key(&self, key: &str) -> (r: bool)
        requires
            self.wf(),
        ensures
            r == (self.entry(key@) is Some),
    {
        self.find(key).is_some()
    }

    /// How many entries there are.
    pub fn len(&self) -> (r: usize)
        ensures
            r == self.keys().len(),
    {
        self.keys.len()
    }

    /// Whether there is no entry.
    pub fn is_empty(&self) -> (r: bool)
        ensures
            r == (self.keys().len() == 0),
    {
        self.keys.len() == 0
    }
}

} // verus!
