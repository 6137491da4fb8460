//! A small map with text keys.

use vstd::prelude::*;

use crate::text;

verus! {

/// A map from text to values, kept as a list of entries with distinct keys.
pub struct TextMap<V> {
    entries: Vec<(String, V)>,
}

/// The entries of `list` as a map.
spec fn as_map<V>(list: Seq<(String, V)>) -> Map<Seq<char>, V>
    decreases list.len(),
{
    if list.len() == 0 {
        Map::empty()
    } else {
        as_map(list.drop_last()).insert(list.last().0@, list.last().1)
    }
}

/// No two entries have the same key.
spec fn distinct_keys<V>(list: Seq<(String, V)>) -> bool {
    forall|i: int, j: int|
        0 <= i < j < list.len() ==> #[trigger] list[i].0@ != #[trigger] list[j].0@
}

impl<V> View for TextMap<V> {
    type V = Map<Seq<char>, V>;

    closed spec fn view(&self) -> Map<Seq<char>, V> {
        as_map(self.entries@)
    }
}

/// `keys` are exactly the keys of `m`, each once.
pub open spec fn lists_keys<V>(keys: Seq<String>, m: Map<Seq<char>, V>) -> bool {
    &&& forall|i: int| 0 <= i < keys.len() ==> m.contains_key((#[trigger] keys[i])@)
    &&& forall|k: Seq<char>| #[trigger]
        m.contains_key(k) ==> exists|i: int| 0 <= i < keys.len() && (#[trigger] keys[i])@ == k
    &&& forall|i: int, j: int|
        0 <= i < j < keys.len() ==> (#[trigger] keys[i])@ != (#[trigger] keys[j])@
}

/// With distinct keys, the map holds exactly the listed entries.
proof fn lemma_as_map<V>(list: Seq<(String, V)>)
    requires
        distinct_keys(list),
    ensures
        forall|i: int|
            0 <= i < list.len() ==> as_map(list).contains_key(#[trigger] list[i].0@) && as_map(
                list,
            )[list[i].0@] == list[i].1,
        forall|k: Seq<char>| #[trigger]
            as_map(list).contains_key(k) ==> exists|i: int|
                0 <= i < list.len() && #[trigger] list[i].0@ == k,
        as_map(list).dom().finite(),
        as_map(list).len() == list.len(),
    decreases list.len(),
{
    if list.len() > 0 {
        let init = list.drop_last();
        assert(distinct_keys(init)) by {
            assert forall|i: int, j: int| 0 <= i < j < init.len() implies #[trigger] init[i].0@
                != #[trigger] init[j].0@ by {
                assert(init[i] == list[i] && init[j] == list[j]);
            }
        }
        lemma_as_map(init);
        let last = list.last();
        assert(!as_map(init).contains_key(last.0@)) by {
            if as_map(init).contains_key(last.0@) {
                let i = choose|i: int| 0 <= i < init.len() && #[trigger] init[i].0@ == last.0@;
                assert(list[i].0@ != list[list.len() - 1].0@);
            }
        }
        assert forall|i: int| 0 <= i < list.len() implies as_map(list).contains_key(
            #[trigger] list[i].0@,
        ) && as_map(list)[list[i].0@] == list[i].1 by {
            if i < init.len() {
                assert(init[i] == list[i]);
                assert(as_map(init).contains_key(init[i].0@));
            }
        }
        assert forall|k: Seq<char>| #[trigger] as_map(list).contains_key(k) implies exists|i: int|
            0 <= i < list.len() && #[trigger] list[i].0@ == k by {
            if k == last.0@ {
                assert(list[list.len() - 1].0@ == k);
            } else {
                assert(as_map(init).contains_key(k));
                let i = choose|i: int| 0 <= i < init.len() && #[trigger] init[i].0@ == k;
                assert(list[i].0@ == k);
            }
        }
    }
}

/// Two lists with distinct keys and the same entries are the same map.
proof fn lemma_same_map<V>(list: Seq<(String, V)>, m: Map<Seq<char>, V>)
    requires
        distinct_keys(list),
        forall|i: int|
            0 <= i < list.len() ==> m.contains_key(#[trigger] list[i].0@) && m[list[i].0@]
                == list[i].1,
        forall|k: Seq<char>| #[trigger]
            m.contains_key(k) ==> exists|i: int|
                0 <= i < list.len() && #[trigger] list[i].0@ == k,
    ensures
        as_map(list) == m,
{
    lemma_as_map(list);
    assert forall|k: Seq<char>| as_map(list).contains_key(k) == #[trigger] m.contains_key(k) by {
        if as_map(list).contains_key(k) {
            let i = choose|i: int| 0 <= i < list.len() && #[trigger] list[i].0@ == k;
            assert(m.contains_key(list[i].0@));
        }
        if m.contains_key(k) {
            let i = choose|i: int| 0 <= i < list.len() && #[trigger] list[i].0@ == k;
            assert(as_map(list).contains_key(list[i].0@));
        }
    }
    assert forall|k: Seq<char>| #[trigger] m.contains_key(k) implies as_map(list)[k] == m[k] by {
        let i = choose|i: int| 0 <= i < list.len() && #[trigger] list[i].0@ == k;
        assert(as_map(list)[list[i].0@] == list[i].1);
    }
    assert(as_map(list) =~= m);
}

impl<V> TextMap<V> {
    #[verifier::type_invariant]
    spec fn well_formed(self) -> bool {
        distinct_keys(self.entries@)
    }

    /// The empty map.
    pub fn new() -> (r: Self)
        ensures
            r@ == Map::<Seq<char>, V>::empty(),
    {
        TextMap { entries: Vec::new() }
    }

    /// Position of the entry for `key`.
    fn position(&self, key: &str) -> (r: Option<usize>)
        ensures
            match r {
                Some(i) => i < self.entries@.len() && self.entries@[i as int].0@ == key@
                    && self@.contains_key(key@) && self@[key@] == self.entries@[i as int].1,
                None => !self@.contains_key(key@) && forall|i: int|
                    0 <= i < self.entries@.len() ==> #[trigger] self.entries@[i].0@ != key@,
            },
    {
        proof {
            use_type_invariant(self);
            lemma_as_map(self.entries@);
        }
        let mut i: usize = 0;
        while i < self.entries.len()
            invariant
                i <= self.entries@.len(),
                forall|j: int| 0 <= j < i ==> #[trigger] self.entries@[j].0@ != key@,
            decreases self.entries@.len() - i,
        {
            if text::same_text(self.entries[i].0.as_str(), key) {
                proof {
                    use_type_invariant(self);
                    lemma_as_map(self.entries@);
                    assert(self.entries@[i as int].0@ == key@);
                }
                return Some(i);
            }
            i = i + 1;
        }
        proof {
            use_type_invariant(self);
            lemma_as_map(self.entries@);
        }
        None
    }

    /// The key of the entry at position `i`; positions are in no particular
    /// order.
    pub closed spec fn key_at(&self, i: int) -> Seq<char> {
        self.entries@[i].0@
    }

    /// Number of entries.
    pub fn len(&self) -> (r: usize)
        ensures
            r == self@.len(),
            self@.dom().finite(),
            forall|k: Seq<char>| #[trigger]
                self@.contains_key(k) ==> exists|i: int|
                    0 <= i < r && #[trigger] self.key_at(i) == k,
    {
        proof {
            use_type_invariant(self);
            lemma_as_map(self.entries@);
            assert forall|k: Seq<char>| #[trigger] self@.contains_key(k) implies exists|i: int|
                0 <= i < self.entries@.len() && #[trigger] self.key_at(i) == k by {
                let i = choose|i: int|
                    0 <= i < self.entries@.len() && #[trigger] self.entries@[i].0@ == k;
                assert(self.key_at(i) == k);
            }
        }
        self.entries.len()
    }

    /// Is there an entry for `key`?
    pub fn contains(&self, key: &str) -> (r: bool)
        ensures
            r == self@.contains_key(key@),
    {
        self.position(key).is_some()
    }

    /// The value for `key`.
    pub fn get(&self, key: &str) -> (r: Option<&V>)
        ensures
            match r {
                Some(v) => self@.contains_key(key@) && *v == self@[key@],
                None => !self@.contains_key(key@),
            },
    {
        match self.position(key) {
            Some(i) => Some(&self.entries[i].1),
            None => None,
        }
    }

    /// Takes the entry for `key` out of the map.
    pub fn remove(&mut self, key: &str) -> (r: Option<V>)
        ensures
            final(self)@ == old(self)@.remove(key@),
            match r {
                Some(v) => old(self)@.contains_key(key@) && v == old(self)@[key@],
                None => !old(self)@.contains_key(key@),
            },
    {
        proof {
            use_type_invariant(&*self);
        }
        match self.position(key) {
            Some(i) => {
                let mut entries: Vec<(String, V)> = Vec::new();
                std::mem::swap(&mut entries, &mut self.entries);
                let ghost before = entries@;
                let (_, value) = entries.remove(i);
                proof {
                    let after = entries@;
                    lemma_as_map(before);
                    assert forall|a: int, b: int| 0 <= a < b < after.len() implies #[trigger] after[a].0@
                        != #[trigger] after[b].0@ by {
                        let x = if a < i { a } else { a + 1 };
                        let y = if b < i { b } else { b + 1 };
                        assert(after[a] == before[x] && after[b] == before[y]);
                    }
                    let m = as_map(before).remove(key@);
                    assert forall|a: int| 0 <= a < after.len() implies m.contains_key(
                        #[trigger] after[a].0@,
                    ) && m[after[a].0@] == after[a].1 by {
                        let x = if a < i { a } else { a + 1 };
                        assert(after[a] == before[x]);
                        assert(before[x].0@ != before[i as int].0@);
                    }
                    assert forall|k: Seq<char>| #[trigger] m.contains_key(k) implies exists|a: int|
                        0 <= a < after.len() && #[trigger] after[a].0@ == k by {
                        assert(as_map(before).contains_key(k));
                        let x = choose|x: int| 0 <= x < before.len() && #[trigger] before[x].0@
                            == k;
                        let a = if x < i { x } else { x - 1 };
                        assert(after[a] == before[x]);
                    }
                    lemma_same_map(after, m);
                }
                self.entries = entries;
                Some(value)
            },
            None => {
                assert(old(self)@.remove(key@) =~= old(self)@);
                None
            },
        }
    }

    /// Sets the value for `key`, replacing any earlier one.
    pub fn insert(&mut self, key: String, value: V)
        ensures
            final(self)@ == old(self)@.insert(key@, value),
    {
        let _ = self.remove(key.as_str());
        proof {
            use_type_invariant(&*self);
        }
        let ghost removed = self@;
        let mut entries: Vec<(String, V)> = Vec::new();
        std::mem::swap(&mut entries, &mut self.entries);
        let ghost before = entries@;
        entries.push((key, value));
        proof {
            lemma_as_map(before);
            assert(entries@.drop_last() =~= before);
            assert(distinct_keys(entries@)) by {
                assert forall|a: int, b: int| 0 <= a < b < entries@.len() implies #[trigger] entries@[a].0@
                    != #[trigger] entries@[b].0@ by {
                    assert(entries@[a] == before[a]);
                    assert(removed.contains_key(before[a].0@));
                    if b < before.len() {
                        assert(entries@[b] == before[b]);
                    }
                }
            }
            assert(as_map(entries@) =~= old(self)@.insert(key@, value));
        }
        self.entries = entries;
    }

    /// Removes every entry.
    pub fn clear(&mut self)
        ensures
            final(self)@ == Map::<Seq<char>, V>::empty(),
    {
        self.entries = Vec::new();
    }

    /// The keys, each once, in no particular order.
    pub fn keys(&self) -> (r: Vec<String>)
        ensures
            lists_keys(r@, self@),
    {
        proof {
            use_type_invariant(self);
            lemma_as_map(self.entries@);
        }
        let mut keys: Vec<String> = Vec::new();
        let mut i: usize = 0;
        while i < self.entries.len()
            invariant
                i <= self.entries@.len(),
                keys@.len() == i,
                forall|j: int| 0 <= j < i ==> (#[trigger] keys@[j])@ == self.entries@[j].0@,
            decreases self.entries@.len() - i,
        {
            keys.push(self.entries[i].0.clone());
            i = i + 1;
        }
        proof {
            assert forall|k: Seq<char>| #[trigger] self@.contains_key(k) implies exists|i: int|
                0 <= i < keys@.len() && (#[trigger] keys@[i])@ == k by {
                let i = choose|i: int|
                    0 <= i < self.entries@.len() && #[trigger] self.entries@[i].0@ == k;
                assert(keys@[i]@ == k);
            }
            assert forall|i: int| 0 <= i < keys@.len() implies self@.contains_key(
                (#[trigger] keys@[i])@,
            ) by {
                assert(self@.contains_key(self.entries@[i].0@));
            }
            assert forall|i: int, j: int| 0 <= i < j < keys@.len() implies (#[trigger] keys@[i])@
                != (#[trigger] keys@[j])@ by {
                assert(self.entries@[i].0@ != self.entries@[j].0@);
            }
        }
        keys
    }

    /// The value of the entry at position `i`.
    pub fn value_at(&self, i: usize) -> (r: &V)
        requires
            i < self@.len(),
        ensures
            self@.contains_key(self.key_at(i as int)),
            *r == self@[self.key_at(i as int)],
    {
        proof {
            use_type_invariant(self);
            lemma_as_map(self.entries@);
            assert(self@.contains_key(self.entries@[i as int].0@));
        }
        &self.entries[i].1
    }
}

/// A list of the keys of a map holds each of them once, and nothing else.
pub proof fn listed_keys_are_the_keys<V>(
    keys: Seq<String>,
    m: Map<Seq<char>, V>,
    key: Seq<char>,
    i: int,
    j: int,
)
    requires
        lists_keys(keys, m),
    ensures
        m.contains_key(key) <==> exists|n: int|
            0 <= n < keys.len() && (#[trigger] keys[n])@ == key,
        0 <= i < j < keys.len() ==> keys[i]@ != keys[j]@,
{
}

} // verus!
