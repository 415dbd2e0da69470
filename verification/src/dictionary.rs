//! A dictionary keyed by text: entries are kept in the order in which their
//! keys first came, and no key occurs twice.

use vstd::prelude::*;
use crate::text::str_equals;

verus! {

/// The first offset from `from` on at which an entry with `key` stands.
pub open spec fn find_key<V>(entries: Seq<(String, V)>, key: Seq<char>, from: int) -> Option<int>
    decreases entries.len() - from,
{
    if from < 0 || from >= entries.len() {
        None
    } else if entries[from].0@ == key {
        Some(from)
    } else {
        find_key(entries, key, from + 1)
    }
}

/// No two entries have the same key.
pub open spec fn distinct_keys<V>(entries: Seq<(String, V)>) -> bool {
    forall|i: int, j: int|
        0 <= i < j < entries.len() ==> (#[trigger] entries[i]).0@ != (#[trigger] entries[j]).0@
}

/// What `find_key` finds is the first entry with the key from `from` on.
pub proof fn lemma_find_key<V>(entries: Seq<(String, V)>, key: Seq<char>, from: int)
    requires
        0 <= from,
    ensures
        match find_key(entries, key, from) {
            Some(i) => from <= i < entries.len() && entries[i].0@ == key && forall|k: int|
                from <= k < i ==> (#[trigger] entries[k]).0@ != key,
            None => forall|k: int| from <= k < entries.len() ==> (#[trigger] entries[k]).0@ != key,
        },
    decreases entries.len() - from,
{
    if from < entries.len() && entries[from].0@ != key {
        lemma_find_key(entries, key, from + 1);
    }
}

/// An entry with `key` at `i`, and none before it, is what `find_key` finds.
pub proof fn lemma_find_key_is<V>(entries: Seq<(String, V)>, key: Seq<char>, i: int)
    requires
        0 <= i < entries.len(),
        entries[i].0@ == key,
        forall|k: int| 0 <= k < i ==> (#[trigger] entries[k]).0@ != key,
    ensures
        find_key(entries, key, 0) == Some(i),
{
    lemma_find_key(entries, key, 0);
}

/// A dictionary from text to values of `V`.
pub struct Dictionary<V> {
    entries: Vec<(String, V)>,
}

impl<V> Dictionary<V> {
    /// No key occurs twice.
    pub closed spec fn wf(&self) -> bool {
        distinct_keys(self.entries@)
    }

    /// The dictionary as a map from keys to values.
    pub closed spec fn view(&self) -> Map<Seq<char>, V> {
        Map::new(
            |k: Seq<char>| find_key(self.entries@, k, 0) is Some,
            |k: Seq<char>| self.entries@[find_key(self.entries@, k, 0).unwrap()].1,
        )
    }

    /// The keys in the order in which they first came.
    pub closed spec fn keys_view(&self) -> Seq<Seq<char>> {
        Seq::new(self.entries@.len(), |i: int| self.entries@[i].0@)
    }

    /// The map has finitely many keys.
    pub proof fn lemma_finite(&self)
        ensures
            self@.dom().finite(),
    {
        let keys = self.keys_view();
        vstd::seq_lib::seq_to_set_is_finite(keys);
        assert(self@.dom() =~= keys.to_set()) by {
            assert forall|k: Seq<char>| self@.dom().contains(k) == keys.to_set().contains(k) by {
                lemma_find_key(self.entries@, k, 0);
                if keys.to_set().contains(k) {
                    let i = choose|i: int| 0 <= i < keys.len() && keys[i] == k;
                    assert(self.entries@[i].0@ == k);
                }
                if self@.dom().contains(k) {
                    let i = find_key(self.entries@, k, 0).unwrap();
                    assert(keys[i] == k);
                }
            }
        }
    }

    /// The keys in order are the keys of the map, each once.
    pub proof fn lemma_keys(&self)
        requires
            self.wf(),
        ensures
            self.keys_view().no_duplicates(),
            forall|k: Seq<char>| self.keys_view().contains(k) <==> self@.contains_key(k),
    {
        let keys = self.keys_view();
        assert forall|k: Seq<char>| keys.contains(k) <==> self@.contains_key(k) by {
            lemma_find_key(self.entries@, k, 0);
            if keys.contains(k) {
                let i = choose|i: int| 0 <= i < keys.len() && keys[i] == k;
                assert(self.entries@[i].0@ == k);
            }
            if self@.contains_key(k) {
                let i = find_key(self.entries@, k, 0).unwrap();
                assert(keys[i] == k);
            }
        }
    }

    /// An empty dictionary.
    pub fn new() -> (r: Dictionary<V>)
        ensures
            r.wf(),
            r@ == Map::<Seq<char>, V>::empty(),
            r.keys_view() == Seq::<Seq<char>>::empty(),
    {
        let r = Dictionary { entries: Vec::new() };
        assert(r@ =~= Map::<Seq<char>, V>::empty());
        assert(r.keys_view() =~= Seq::<Seq<char>>::empty());
        r
    }

    /// The keys, in the order in which they first came: the keys of the
    /// map, each once.
    pub fn keys(&self) -> (r: Vec<String>)
        requires
            self.wf(),
        ensures
            r.deep_view() == self.keys_view(),
            self.keys_view().no_duplicates(),
            forall|k: Seq<char>| self.keys_view().contains(k) <==> self@.contains_key(k),
    {
        proof {
            self.lemma_keys();
        }
        let mut out: Vec<String> = Vec::new();
        let mut i: usize = 0;
        while i < self.entries.len()
            invariant
                i <= self.entries@.len(),
                out.deep_view() == self.keys_view().subrange(0, i as int),
            decreases self.entries@.len() - i,
        {
            let ghost before = out.deep_view();
            let key = self.entries[i].0.clone();
            out.push(key);
            i += 1;
            assert(out.deep_view() =~= before.push(key@));
            assert(out.deep_view() =~= self.keys_view().subrange(0, i as int));
        }
        assert(self.keys_view().subrange(0, i as int) =~= self.keys_view());
        out
    }

    /// The number of entries.
    pub fn len(&self) -> (r: usize)
        ensures
            r == self.keys_view().len(),
    {
        self.entries.len()
    }

    fn index_of(&self, key: &str) -> (r: Option<usize>)
        ensures
            r.is_some() == find_key(self.entries@, key@, 0).is_some(),
            r.is_some() ==> r.unwrap() == find_key(self.entries@, key@, 0).unwrap(),
            r.is_some() ==> r.unwrap() < self.entries@.len(),
    {
        let mut i: usize = 0;
        while i < self.entries.len()
            invariant
                i <= self.entries@.len(),
                find_key(self.entries@, key@, i as int) == find_key(self.entries@, key@, 0),
            decreases self.entries@.len() - i,
        {
            if str_equals(self.entries[i].0.as_str(), key) {
                return Some(i);
            }
            i += 1;
        }
        None
    }

    /// The value under `key`, if there is one.
    pub fn get(&self, key: &str) -> (r: Option<&V>)
        ensures
            r.is_some() == self@.contains_key(key@),
            r.is_some() ==> *r.unwrap() == self@[key@],
    {
        match self.index_of(key) {
            Some(i) => Some(&self.entries[i].1),
            None => None,
        }
    }

    /// Whether there is a value under `key`.
    pub fn contains_key(&self, key: &str) -> (r: bool)
        ensures
            r == self@.contains_key(key@),
    {
        self.index_of(key).is_some()
    }

    /// The key at position `i` in the order in which the keys first came.
    pub fn key_at(&self, i: usize) -> (r: &String)
        requires
            i < self.keys_view().len(),
        ensures
            r@ == self.keys_view()[i as int],
    {
        &self.entries[i].0
    }

    /// Puts `value` under `key`, in place of the value that was there, if one
    /// was.
    pub fn insert(&mut self, key: String, value: V)
        requires
            old(self).wf(),
        ensures
            final(self).wf(),
            final(self)@ == old(self)@.insert(key@, value),
            final(self).keys_view() == if old(self)@.contains_key(key@) {
                old(self).keys_view()
            } else {
                old(self).keys_view().push(key@)
            },
    {
        let ghost before = self.entries@;
        let ghost k = key@;
        let ghost target = old(self)@.insert(k, value);
        proof {
            lemma_find_key(before, k, 0);
        }
        match self.index_of(key.as_str()) {
            Some(i) => {
                self.entries.set(i, (key, value));
                let ghost after = self.entries@;
                assert(distinct_keys(after)) by {
                    assert forall|a: int, b: int| 0 <= a < b < after.len() implies (
                    #[trigger] after[a]).0@ != (#[trigger] after[b]).0@ by {
                        assert(before[a].0@ != before[b].0@);
                    }
                }
                assert forall|q: Seq<char>| #[trigger]
                    same_at(self@, target, q) by {
                    lemma_same_keys(before, after, q);
                    lemma_find_key(after, q, 0);
                    assert(self@.contains_key(q) == (find_key(after, q, 0) is Some));
                    assert(old(self)@.contains_key(q) == (find_key(before, q, 0) is Some));
                    assert(target.contains_key(q) == (q == k || old(self)@.contains_key(q)));
                    if self@.contains_key(q) {
                        let x = find_key(after, q, 0).unwrap();
                        assert(self@[q] == after[x].1);
                        if q != k {
                            assert(before[x].0@ != k);
                            assert(x != i);
                            assert(after[x] == before[x]);
                            assert(target[q] == old(self)@[q]);
                        } else {
                            assert(x == i);
                        }
                    }
                }
                proof {
                    lemma_same_everywhere(self@, target);
                }
                assert(self.keys_view() =~= old(self).keys_view());
            },
            None => {
                self.entries.push((key, value));
                let ghost after = self.entries@;
                assert(distinct_keys(after)) by {
                    assert forall|a: int, b: int| 0 <= a < b < after.len() implies (
                    #[trigger] after[a]).0@ != (#[trigger] after[b]).0@ by {
                        if b < before.len() {
                            assert(before[a].0@ != before[b].0@);
                        } else {
                            assert(before[a].0@ != k);
                        }
                    }
                }
                assert forall|q: Seq<char>| #[trigger]
                    same_at(self@, target, q) by {
                    lemma_pushed_key(before, after, q);
                    lemma_find_key(after, q, 0);
                    lemma_find_key(before, q, 0);
                    assert(self@.dom().contains(q) == (find_key(after, q, 0) is Some));
                    assert(old(self)@.dom().contains(q) == (find_key(before, q, 0) is Some));
                    if self@.dom().contains(q) {
                        let x = find_key(after, q, 0).unwrap();
                        assert(self@[q] == after[x].1);
                        if q != k {
                            assert(after[x] == before[x]);
                            assert(target[q] == old(self)@[q]);
                        }
                    }
                }
                proof {
                    lemma_same_everywhere(self@, target);
                }
                assert(self.keys_view() =~= old(self).keys_view().push(k));
            },
        }
    }

    /// Takes the value under `key` out, if there is one.
    pub fn remove(&mut self, key: &str) -> (r: Option<V>)
        requires
            old(self).wf(),
        ensures
            final(self).wf(),
            final(self)@ == old(self)@.remove(key@),
            r.is_some() == old(self)@.contains_key(key@),
            r.is_some() ==> r.unwrap() == old(self)@[key@],
    {
        let ghost before = self.entries@;
        let ghost k = key@;
        let ghost target = old(self)@.remove(k);
        proof {
            lemma_find_key(before, k, 0);
        }
        match self.index_of(key) {
            Some(i) => {
                let entry = self.entries.remove(i);
                let ghost after = self.entries@;
                assert(distinct_keys(after)) by {
                    assert forall|a: int, b: int| 0 <= a < b < after.len() implies (
                    #[trigger] after[a]).0@ != (#[trigger] after[b]).0@ by {
                        let a0 = if a < i {
                            a
                        } else {
                            a + 1
                        };
                        let b0 = if b < i {
                            b
                        } else {
                            b + 1
                        };
                        assert(before[a0].0@ != before[b0].0@);
                    }
                }
                assert forall|q: Seq<char>| #[trigger]
                    same_at(self@, target, q) by {
                    lemma_removed_key(before, after, i as int, q);
                    lemma_find_key(after, q, 0);
                    lemma_find_key(before, q, 0);
                    assert(self@.dom().contains(q) == (find_key(after, q, 0) is Some));
                    assert(old(self)@.dom().contains(q) == (find_key(before, q, 0) is Some));
                    if self@.dom().contains(q) {
                        let x = find_key(after, q, 0).unwrap();
                        let x0 = find_key(before, q, 0).unwrap();
                        assert(self@[q] == after[x].1);
                        assert(after[x] == before[x0]);
                        assert(target[q] == old(self)@[q]);
                    }
                }
                proof {
                    lemma_same_everywhere(self@, target);
                }
                Some(entry.1)
            },
            None => {
                assert(self@ =~= target);
                None
            },
        }
    }
}

/// Two maps agree on `q`: both hold it, with one value, or neither does.
pub open spec fn same_at<V>(a: Map<Seq<char>, V>, b: Map<Seq<char>, V>, q: Seq<char>) -> bool {
    a.dom().contains(q) == b.dom().contains(q) && (a.dom().contains(q) ==> a[q] == b[q])
}

/// Maps that agree on every key are equal.
pub proof fn lemma_same_everywhere<V>(a: Map<Seq<char>, V>, b: Map<Seq<char>, V>)
    requires
        forall|q: Seq<char>| #[trigger] same_at(a, b, q),
    ensures
        a == b,
{
    assert forall|q: Seq<char>| a.dom().contains(q) == b.dom().contains(q) by {
        assert(same_at(a, b, q));
    }
    assert forall|q: Seq<char>| a.dom().contains(q) implies a[q] == b[q] by {
        assert(same_at(a, b, q));
    }
    assert(a =~= b);
}

/// Where every entry keeps its key, every key is found where it was.
proof fn lemma_same_keys<V>(before: Seq<(String, V)>, after: Seq<(String, V)>, q: Seq<char>)
    requires
        before.len() == after.len(),
        forall|i: int| 0 <= i < before.len() ==> (#[trigger] before[i]).0@ == after[i].0@,
    ensures
        find_key(after, q, 0) == find_key(before, q, 0),
{
    lemma_find_key(before, q, 0);
    lemma_find_key(after, q, 0);
    match find_key(before, q, 0) {
        Some(x) => {
            assert(before[x].0@ == after[x].0@);
            assert forall|y: int| 0 <= y < x implies (#[trigger] after[y]).0@ != q by {
                assert(before[y].0@ == after[y].0@);
            }
            lemma_find_key_is(after, q, x);
        },
        None => {
            if find_key(after, q, 0) is Some {
                let x = find_key(after, q, 0).unwrap();
                assert(before[x].0@ == after[x].0@);
            }
        },
    }
}

/// Behind a new last entry, whose key was not there, its key is found at the
/// end and every other key where it was.
proof fn lemma_pushed_key<V>(before: Seq<(String, V)>, after: Seq<(String, V)>, q: Seq<char>)
    requires
        after.len() == before.len() + 1,
        forall|i: int| 0 <= i < before.len() ==> (#[trigger] before[i]) == after[i],
        find_key(before, after[before.len() as int].0@, 0) is None,
    ensures
        find_key(after, q, 0) == (if q == after[before.len() as int].0@ {
            Some(before.len() as int)
        } else {
            find_key(before, q, 0)
        }),
{
    let n = before.len() as int;
    let k = after[n].0@;
    lemma_find_key(before, q, 0);
    lemma_find_key(after, q, 0);
    lemma_find_key(before, k, 0);
    if q == k {
        assert forall|y: int| 0 <= y < n implies (#[trigger] after[y]).0@ != q by {
            assert(before[y] == after[y]);
        }
        lemma_find_key_is(after, q, n);
    } else {
        match find_key(before, q, 0) {
            Some(x) => {
                assert(before[x] == after[x]);
                assert forall|y: int| 0 <= y < x implies (#[trigger] after[y]).0@ != q by {
                    assert(before[y] == after[y]);
                }
                lemma_find_key_is(after, q, x);
            },
            None => {
                if find_key(after, q, 0) is Some {
                    let x = find_key(after, q, 0).unwrap();
                    if x < n {
                        assert(before[x] == after[x]);
                    }
                }
            },
        }
    }
}

/// Without the entry at `i`, its key is found no more, and every other key
/// where it was, one place earlier where that was behind `i`.
proof fn lemma_removed_key<V>(
    before: Seq<(String, V)>,
    after: Seq<(String, V)>,
    i: int,
    q: Seq<char>,
)
    requires
        distinct_keys(before),
        0 <= i < before.len(),
        after == before.remove(i),
    ensures
        find_key(after, q, 0) == (if q == before[i].0@ {
            None
        } else {
            match find_key(before, q, 0) {
                Some(x) => Some(
                    if x < i {
                        x
                    } else {
                        x - 1
                    },
                ),
                None => None,
            }
        }),
{
    let k = before[i].0@;
    lemma_find_key(before, q, 0);
    lemma_find_key(after, q, 0);
    if find_key(after, q, 0) is Some {
        let x = find_key(after, q, 0).unwrap();
        let x0 = if x < i {
            x
        } else {
            x + 1
        };
        assert(before[x0] == after[x]);
        if q == k {
            if x0 < i {
                assert(before[x0].0@ != before[i].0@);
            } else {
                assert(before[i].0@ != before[x0].0@);
            }
        }
    }
    if q != k {
        match find_key(before, q, 0) {
            Some(x) => {
                let x1 = if x < i {
                    x
                } else {
                    x - 1
                };
                assert(after[x1] == before[x]);
                assert forall|y: int| 0 <= y < x1 implies (#[trigger] after[y]).0@ != q by {
                    let y0 = if y < i {
                        y
                    } else {
                        y + 1
                    };
                    assert(after[y] == before[y0]);
                }
                lemma_find_key_is(after, q, x1);
            },
            None => {},
        }
    }
}

} // verus!
