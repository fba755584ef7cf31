//! A map keyed by strings, kept as a list of distinct keys. vstd gives
//! std's `HashMap` a model of its contents only for keys with a known key
//! model (integers, `bool`, boxes of them), not for `String`, so a
//! `HashMap<String, _>` could be used here with nothing stated of it.

use vstd::prelude::*;

verus! {

/// No key occurs twice in `e`.
pub open spec fn keys_unique<V>(e: Seq<(String, V)>) -> bool {
    forall|i: int, j: int| 0 <= i < j < e.len() ==> #[trigger] e[i].0@ != #[trigger] e[j].0@
}

/// The position of key `k` in `e`.
pub open spec fn index_of<V>(e: Seq<(String, V)>, k: Seq<char>) -> int {
    choose|i: int| 0 <= i < e.len() && e[i].0@ == k
}

/// The map that the entries `e` hold.
pub open spec fn entries_map<V>(e: Seq<(String, V)>) -> Map<Seq<char>, V> {
    Map::new(
        |k: Seq<char>| exists|i: int| 0 <= i < e.len() && e[i].0@ == k,
        |k: Seq<char>| e[index_of(e, k)].1,
    )
}

proof fn lemma_lookup<V>(e: Seq<(String, V)>, i: int)
    requires
        keys_unique(e),
        0 <= i < e.len(),
    ensures
        entries_map(e).dom().contains(e[i].0@),
        entries_map(e)[e[i].0@] == e[i].1,
{
    let k = e[i].0@;
    assert(entries_map(e).dom().contains(k));
    let j = index_of(e, k);
    if j != i {
        if i < j {
            assert(e[i].0@ != e[j].0@);
        } else {
            assert(e[j].0@ != e[i].0@);
        }
    }
}

/// A map from strings to values. Each key occurs at most once.
pub struct StrMap<V> {
    entries: Vec<(String, V)>,
}

impl<V> StrMap<V> {
    #[verifier::type_invariant]
    closed spec fn wf(&self) -> bool {
        keys_unique(self.entries@)
    }

    /// The map held.
    pub closed spec fn view(&self) -> Map<Seq<char>, V> {
        entries_map(self.entries@)
    }

    /// The empty map.
    pub fn new() -> (m: Self)
        ensures
            m.view() == Map::<Seq<char>, V>::empty(),
    {
        let m = StrMap { entries: Vec::new() };
        assert(m.view() =~= Map::<Seq<char>, V>::empty());
        m
    }

    fn position(&self, key: &str) -> (r: Option<usize>)
        ensures
            match r {
                Some(i) => i < self.entries@.len() && self.entries@[i as int].0@ == key@,
                None => forall|i: int| 0 <= i < self.entries@.len() ==> self.entries@[i].0@ != key@,
            },
    {
        let mut i: usize = 0;
        while i < self.entries.len()
            invariant
                i <= self.entries@.len(),
                forall|j: int| 0 <= j < i ==> self.entries@[j].0@ != key@,
            decreases self.entries.len() - i,
        {
            if str_eq(self.entries[i].0.as_str(), key) {
                return Some(i);
            }
            i = i + 1;
        }
        None
    }

    /// The value at `key`, if any.
    pub fn get(&self, key: &str) -> (r: Option<&V>)
        ensures
            match r {
                Some(v) => self.view().dom().contains(key@) && self.view()[key@] == *v,
                None => !self.view().dom().contains(key@),
            },
    {
        proof {
            use_type_invariant(self);
        }
        match self.position(key) {
            Some(i) => {
                proof {
                    lemma_lookup(self.entries@, i as int);
                }
                Some(&self.entries[i].1)
            },
            None => None,
        }
    }

    /// Sets the value at `key`.
    pub fn insert(&mut self, key: String, value: V)
        ensures
            final(self).view() == old(self).view().insert(key@, value),
    {
        proof {
            use_type_invariant(&*self);
        }
        let ghost k = key@;
        let ghost v = value;
        let ghost before = self.entries@;
        let pos = self.position(key.as_str());
        let mut entries: Vec<(String, V)> = Vec::new();
        std::mem::swap(&mut entries, &mut self.entries);
        assert(entries@ == before);
        let ghost n = before.len() as int;
        match pos {
            Some(i) => {
                entries.set(i, (key, value));
            },
            None => {
                entries.push((key, value));
            },
        }
        let ghost after = entries@;
        proof {
            assert forall|a: int, b: int|
                0 <= a < b < after.len() implies #[trigger] after[a].0@ != #[trigger] after[b].0@ by {
                match pos {
                    Some(i) => {
                        assert(before[a].0@ != before[b].0@);
                    },
                    None => {
                        if b < n {
                            assert(before[a].0@ != before[b].0@);
                        } else {
                            assert(before[a].0@ != k);
                        }
                    },
                }
            }
            let j_new = match pos {
                Some(i) => i as int,
                None => n,
            };
            assert(after[j_new].0@ == k);
            assert forall|q: Seq<char>| #[trigger]
                entries_map(after).dom().contains(q) == entries_map(before).insert(k, v).dom().contains(
                    q,
                ) by {
                if q == k {
                    assert(after[j_new].0@ == q);
                } else if entries_map(before).dom().contains(q) {
                    let j = index_of(before, q);
                    assert(after[j].0@ == q);
                } else if entries_map(after).dom().contains(q) {
                    let j = index_of(after, q);
                    assert(before[j].0@ == q);
                }
            }
            assert forall|q: Seq<char>| #[trigger] entries_map(after).dom().contains(q) implies entries_map(
                after,
            )[q] == entries_map(before).insert(k, v)[q] by {
                let j = index_of(after, q);
                lemma_lookup(after, j);
                if q != k {
                    assert(j != j_new);
                    assert(before[j] == after[j]);
                    lemma_lookup(before, j);
                }
            }
            assert(entries_map(after) =~= entries_map(before).insert(k, v));
        }
        self.entries = entries;
    }
}

/// String equality.
pub fn str_eq(a: &str, b: &str) -> (r: bool)
    ensures
        r == (a@ == b@),
{
    let x: Vec<char> = crate::text::chars_of(a);
    let y: Vec<char> = crate::text::chars_of(b);
    if x.len() != y.len() {
        return false;
    }
    let mut i: usize = 0;
    while i < x.len()
        invariant
            x@ == a@,
            y@ == b@,
            x@.len() == y@.len(),
            i <= x@.len(),
            forall|j: int| 0 <= j < i ==> x@[j] == y@[j],
        decreases x.len() - i,
    {
        if x[i] != y[i] {
            return false;
        }
        i = i + 1;
    }
    assert(x@ =~= y@);
    true
}

} // verus!
