//! A small table keyed by name, with unique keys, kept in insertion order.
use vstd::prelude::*;

verus! {

/// Entries keyed by name; each key occurs at most once.
#[derive(Clone, Debug)]
pub struct NamedTable<V> {
    pub entries: Vec<(String, V)>,
}

impl<V> NamedTable<V> {
    pub open spec fn key(&self, i: int) -> Seq<char> {
        self.entries@[i].0@
    }

    /// No key occurs twice.
    pub open spec fn wf(&self) -> bool {
        forall|i: int, j: int|
            0 <= i < j < self.entries@.len() ==> #[trigger] self.key(i) != #[trigger] self.key(j)
    }

    pub open spec fn has_key(&self, k: Seq<char>) -> bool {
        exists|i: int| 0 <= i < self.entries@.len() && #[trigger] self.key(i) == k
    }

    /// Position of the entry for key `k` (meaningful when `has_key(k)`).
    pub open spec fn index_of(&self, k: Seq<char>) -> int {
        choose|i: int| 0 <= i < self.entries@.len() && #[trigger] self.key(i) == k
    }

    /// The value stored under key `k` (meaningful when `has_key(k)`).
    pub open spec fn value_of(&self, k: Seq<char>) -> V {
        self.entries@[self.index_of(k)].1
    }

    pub proof fn lemma_index_of(&self, i: int)
        requires
            self.wf(),
            0 <= i < self.entries@.len(),
        ensures
            self.has_key(self.key(i)),
            self.index_of(self.key(i)) == i,
            self.value_of(self.key(i)) == self.entries@[i].1,
    {
        let k = self.key(i);
        assert(self.has_key(k));
        let j = self.index_of(k);
        if j != i {
            if i < j {
                assert(self.key(i) != self.key(j));
            } else {
                assert(self.key(j) != self.key(i));
            }
        }
    }

    pub fn new() -> (t: NamedTable<V>)
        ensures
            t.wf(),
            t.entries@.len() == 0,
            forall|k: Seq<char>| !t.has_key(k),
    {
        NamedTable { entries: Vec::new() }
    }

    /// Position of the first entry for `key`, if there is one.
    pub fn position(&self, key: &str) -> (r: Option<usize>)
        ensures
            r is Some <==> self.has_key(key@),
            r matches Some(i) ==> i < self.entries@.len() && self.key(i as int) == key@,
    {
        let kc = crate::text::chars_of(key);
        let mut i: usize = 0;
        while i < self.entries.len()
            invariant
                kc@ == key@,
                i <= self.entries@.len(),
                forall|j: int| 0 <= j < i ==> #[trigger] self.key(j) != key@,
            decreases self.entries.len() - i,
        {
            let ec = crate::text::chars_of(self.entries[i].0.as_str());
            if crate::text::chars_eq(&ec, &kc) {
                proof {
                    assert(self.key(i as int) == key@);
                }
                return Some(i);
            }
            i = i + 1;
        }
        None
    }

    /// Position of the entry for `key`, if there is one.
    pub fn find(&self, key: &str) -> (r: Option<usize>)
        requires
            self.wf(),
        ensures
            r is Some <==> self.has_key(key@),
            r matches Some(i) ==> i == self.index_of(key@) && i < self.entries@.len(),
    {
        let r = self.position(key);
        proof {
            if let Some(i) = r {
                self.lemma_index_of(i as int);
            }
        }
        r
    }

    /// The value under `key`, if any.
    pub fn get(&self, key: &str) -> (r: Option<&V>)
        requires
            self.wf(),
        ensures
            r is Some <==> self.has_key(key@),
            r matches Some(v) ==> *v == self.value_of(key@),
    {
        match self.find(key) {
            Some(i) => Some(&self.entries[i].1),
            None => None,
        }
    }

    pub fn contains_key(&self, key: &str) -> (b: bool)
        requires
            self.wf(),
        ensures
            b == self.has_key(key@),
    {
        self.find(key).is_some()
    }

    /// Store `value` under `key`, replacing the value already there.
    pub fn insert(&mut self, key: String, value: V)
        requires
            old(self).wf(),
        ensures
            final(self).wf(),
            forall|k: Seq<char>| #[trigger]
                final(self).has_key(k) <==> (old(self).has_key(k) || k == key@),
            final(self).value_of(key@) == value,
            forall|k: Seq<char>|
                k != key@ && old(self).has_key(k) ==> #[trigger] final(self).value_of(k)
                    == old(self).value_of(k),
    {
        let ghost kv = key@;
        match self.find(key.as_str()) {
            Some(i) => {
                let ghost before = *self;
                self.entries.set(i, (key, value));
                proof {
                    assert forall|a: int, b: int|
                        0 <= a < b < self.entries@.len() implies #[trigger] self.key(a)
                        != #[trigger] self.key(b) by {
                        assert(before.key(a) != before.key(b));
                    }
                    assert forall|k: Seq<char>| #[trigger]
                        self.has_key(k) <==> (before.has_key(k) || k == kv) by {
                        if before.has_key(k) {
                            let j = before.index_of(k);
                            assert(self.key(j) == k);
                        }
                        if self.has_key(k) {
                            let j = self.index_of(k);
                            if j != i as int {
                                assert(before.key(j) == k);
                            }
                        }
                    }
                    self.lemma_index_of(i as int);
                    assert forall|k: Seq<char>|
                        k != kv && before.has_key(k) implies #[trigger] self.value_of(k)
                        == before.value_of(k) by {
                        let j = before.index_of(k);
                        before.lemma_index_of(j);
                        assert(self.key(j) == k);
                        self.lemma_index_of(j);
                    }
                }
            },
            None => {
                let ghost before = *self;
                self.entries.push((key, value));
                proof {
                    let n = before.entries@.len() as int;
                    assert forall|a: int, b: int|
                        0 <= a < b < self.entries@.len() implies #[trigger] self.key(a)
                        != #[trigger] self.key(b) by {
                        if b < n {
                            assert(before.key(a) != before.key(b));
                        } else {
                            assert(before.key(a) != kv);
                        }
                    }
                    assert forall|k: Seq<char>| #[trigger]
                        self.has_key(k) <==> (before.has_key(k) || k == kv) by {
                        if before.has_key(k) {
                            let j = before.index_of(k);
                            assert(self.key(j) == k);
                        }
                        if k == kv {
                            assert(self.key(n) == k);
                        }
                        if self.has_key(k) {
                            let j = self.index_of(k);
                            if j < n {
                                assert(before.key(j) == k);
                            }
                        }
                    }
                    self.lemma_index_of(n);
                    assert forall|k: Seq<char>|
                        k != kv && before.has_key(k) implies #[trigger] self.value_of(k)
                        == before.value_of(k) by {
                        let j = before.index_of(k);
                        before.lemma_index_of(j);
                        assert(self.key(j) == k);
                        self.lemma_index_of(j);
                    }
                }
            },
        }
    }

    pub fn len(&self) -> (n: usize)
        ensures
            n == self.entries@.len(),
    {
        self.entries.len()
    }
}

} // verus!
