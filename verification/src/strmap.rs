//! A small map from strings to strings that keeps insertion order.

use vstd::prelude::*;
use crate::text::str_equal;

verus! {

/// The value of key `k` in the entries `s`, the first entry of that key
/// winning.
pub open spec fn lookup(s: Seq<(Seq<char>, Seq<char>)>, k: Seq<char>) -> Option<Seq<char>>
    decreases s.len(),
{
    if s.len() == 0 {
        None
    } else if s[0].0 == k {
        Some(s[0].1)
    } else {
        lookup(s.drop_first(), k)
    }
}

/// The entries of `s` with key `k` set to `v`: an entry of that key is
/// replaced in place, otherwise one is added at the end.
pub open spec fn assign(s: Seq<(Seq<char>, Seq<char>)>, k: Seq<char>, v: Seq<char>) -> Seq<(Seq<char>, Seq<char>)> {
    if exists|i: int| 0 <= i < s.len() && (#[trigger] s[i]).0 == k {
        s.map_values(|e: (Seq<char>, Seq<char>)| if e.0 == k { (k, v) } else { e })
    } else {
        s.push((k, v))
    }
}

proof fn lemma_lookup_first(s: Seq<(Seq<char>, Seq<char>)>, k: Seq<char>, i: int)
    requires
        0 <= i <= s.len(),
        forall|j: int| 0 <= j < i ==> (#[trigger] s[j]).0 != k,
    ensures
        i < s.len() && s[i].0 == k ==> lookup(s, k) == Some(s[i].1),
        i == s.len() ==> lookup(s, k) is None,
    decreases s.len(),
{
    if s.len() > 0 && s[0].0 != k {
        assert forall|j: int| 0 <= j < i - 1 implies (#[trigger] s.drop_first()[j]).0 != k by {
            assert(s.drop_first()[j] == s[j + 1]);
        }
        if i > 0 {
            lemma_lookup_first(s.drop_first(), k, i - 1);
        } else {
            lemma_lookup_first(s.drop_first(), k, 0);
        }
    }
}

/// A map from strings to strings, in insertion order, one entry per key.
#[derive(Debug, Clone)]
pub struct StrMap {
    keys: Vec<String>,
    values: Vec<String>,
}

impl View for StrMap {
    type V = Seq<(Seq<char>, Seq<char>)>;

    closed spec fn view(&self) -> Seq<(Seq<char>, Seq<char>)> {
        Seq::new(self.keys@.len(), |i: int| (self.keys@[i]@, self.values@[i]@))
    }
}

impl StrMap {
    /// The map's invariant: keys and values line up.
    pub closed spec fn wf(&self) -> bool {
        &&& self.keys@.len() == self.values@.len()
        &&& forall|i: int, j: int|
            0 <= i < self.keys@.len() && 0 <= j < self.keys@.len() && i != j ==> (#[trigger] self.keys@[i])@
                != (#[trigger] self.keys@[j])@
    }

    /// An empty map.
    pub fn new() -> (r: Self)
        ensures
            r.wf(),
            r@.len() == 0,
    {
        StrMap { keys: Vec::new(), values: Vec::new() }
    }

    fn find(&self, key: &str) -> (r: Option<usize>)
        requires
            self.wf(),
        ensures
            r is None ==> lookup(self@, key@) is None && !(exists|i: int|
                0 <= i < self@.len() && (#[trigger] self@[i]).0 == key@),
            r matches Some(i) ==> i < self@.len() && self@[i as int].0 == key@ && lookup(self@, key@)
                == Some(self@[i as int].1) && forall|j: int| 0 <= j < i ==> (#[trigger] self@[j]).0 != key@,
    {
        let mut i: usize = 0;
        while i < self.keys.len()
            invariant
                self.wf(),
                i <= self.keys@.len(),
                forall|j: int| 0 <= j < i ==> (#[trigger] self@[j]).0 != key@,
            decreases self.keys.len() - i,
        {
            assert(self@[i as int].0 == self.keys@[i as int]@);
            if str_equal(self.keys[i].as_str(), key) {
                proof {
                    lemma_lookup_first(self@, key@, i as int);
                }
                return Some(i);
            }
            i = i + 1;
        }
        proof {
            lemma_lookup_first(self@, key@, i as int);
        }
        None
    }

    /// Sets `key` to `value`.
    pub fn insert(&mut self, key: String, value: String)
        requires
            old(self).wf(),
        ensures
            final(self).wf(),
            final(self)@ == assign(old(self)@, key@, value@),
    {
        match self.find(key.as_str()) {
            Some(i) => {
                self.values.set(i, value);
                assert forall|j: int| 0 <= j < self@.len() implies #[trigger] self@[j] == old(self)@.map_values(
                    |e: (Seq<char>, Seq<char>)| if e.0 == key@ { (key@, value@) } else { e },
                )[j] by {
                    if j != i {
                        assert(old(self).keys@[j]@ != old(self).keys@[i as int]@);
                    }
                }
                assert(self@ =~= old(self)@.map_values(
                    |e: (Seq<char>, Seq<char>)| if e.0 == key@ { (key@, value@) } else { e },
                ));
            },
            None => {
                let ghost k = key@;
                self.keys.push(key);
                self.values.push(value);
                assert(self@ =~= old(self)@.push((k, value@)));
                assert forall|a: int, b: int|
                    0 <= a < self.keys@.len() && 0 <= b < self.keys@.len() && a != b implies (
                    #[trigger] self.keys@[a])@ != (#[trigger] self.keys@[b])@ by {
                    if a == self.keys@.len() - 1 {
                        assert(old(self)@[b].0 == self.keys@[b]@);
                    } else if b == self.keys@.len() - 1 {
                        assert(old(self)@[a].0 == self.keys@[a]@);
                    }
                }
            },
        }
    }

    /// The value of `key`, if any.
    pub fn get(&self, key: &str) -> (r: Option<&String>)
        requires
            self.wf(),
        ensures
            match r {
                Some(v) => lookup(self@, key@) == Some(v@),
                None => lookup(self@, key@) is None,
            },
    {
        match self.find(key) {
            Some(i) => Some(&self.values[i]),
            None => None,
        }
    }

    /// Whether `key` has a value.
    pub fn contains_key(&self, key: &str) -> (r: bool)
        requires
            self.wf(),
        ensures
            r == (lookup(self@, key@) is Some),
    {
        self.find(key).is_some()
    }

    /// How many keys have a value.
    pub fn len(&self) -> (r: usize)
        requires
            self.wf(),
        ensures
            r == self@.len(),
    {
        self.keys.len()
    }

    /// Whether no key has a value.
    pub fn is_empty(&self) -> (r: bool)
        requires
            self.wf(),
        ensures
            r == (self@.len() == 0),
    {
        self.keys.len() == 0
    }
}


/// Reading a key right after setting it gives the value set; every other
/// key reads as before.
pub proof fn lemma_assign_then_lookup(s: Seq<(Seq<char>, Seq<char>)>, k: Seq<char>, v: Seq<char>, other: Seq<char>)
    requires
        other != k,
    ensures
        lookup(assign(s, k, v), k) == Some(v),
        lookup(assign(s, k, v), other) == lookup(s, other),
    decreases s.len(),
{
    let a = assign(s, k, v);
    if exists|i: int| 0 <= i < s.len() && (#[trigger] s[i]).0 == k {
        let f = |e: (Seq<char>, Seq<char>)| if e.0 == k { (k, v) } else { e };
        assert(a == s.map_values(f));
        if s[0].0 == k {
            assert(a[0] == (k, v));
            lemma_map_lookup_other(s, k, v, other);
        } else {
            let i = choose|i: int| 0 <= i < s.len() && (#[trigger] s[i]).0 == k;
            assert(i > 0);
            assert(s.drop_first()[i - 1].0 == k);
            lemma_assign_then_lookup(s.drop_first(), k, v, other);
            assert(assign(s.drop_first(), k, v) =~= a.drop_first());
            lemma_map_lookup_other(s, k, v, other);
        }
    } else {
        assert(a == s.push((k, v)));
        lemma_push_lookup(s, k, v, other);
    }
}

proof fn lemma_map_lookup_other(s: Seq<(Seq<char>, Seq<char>)>, k: Seq<char>, v: Seq<char>, other: Seq<char>)
    requires
        other != k,
    ensures
        lookup(s.map_values(|e: (Seq<char>, Seq<char>)| if e.0 == k { (k, v) } else { e }), other)
            == lookup(s, other),
        s.len() > 0 && s[0].0 == k ==> lookup(
            s.map_values(|e: (Seq<char>, Seq<char>)| if e.0 == k { (k, v) } else { e }),
            k,
        ) == Some(v),
    decreases s.len(),
{
    let f = |e: (Seq<char>, Seq<char>)| if e.0 == k { (k, v) } else { e };
    let m = s.map_values(f);
    if s.len() > 0 {
        assert(m.drop_first() =~= s.drop_first().map_values(f));
        lemma_map_lookup_other(s.drop_first(), k, v, other);
    }
}

proof fn lemma_push_lookup(s: Seq<(Seq<char>, Seq<char>)>, k: Seq<char>, v: Seq<char>, other: Seq<char>)
    requires
        other != k,
        forall|i: int| 0 <= i < s.len() ==> (#[trigger] s[i]).0 != k,
    ensures
        lookup(s.push((k, v)), k) == Some(v),
        lookup(s.push((k, v)), other) == lookup(s, other),
    decreases s.len(),
{
    if s.len() > 0 {
        assert(s.push((k, v)).drop_first() =~= s.drop_first().push((k, v)));
        lemma_push_lookup(s.drop_first(), k, v, other);
    } else {
        assert(s.push((k, v)).drop_first() =~= Seq::<(Seq<char>, Seq<char>)>::empty());
        assert(lookup(Seq::<(Seq<char>, Seq<char>)>::empty(), other) is None);
    }
}

} // verus!
