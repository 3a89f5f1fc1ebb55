//! A map from text keys to values, kept as a list in which no key occurs twice.

use vstd::prelude::*;
use crate::text::texts;

verus! {

/// One key together with its value.
#[derive(Debug)]
struct Entry<V> {
    key: String,
    value: V,
}

/// The keys of a list of entries, in the order of the list.
spec fn keys_of<V>(entries: Seq<Entry<V>>) -> Seq<Seq<char>> {
    entries.map_values(|e: Entry<V>| e.key@)
}

/// The map that a list of entries with distinct keys stands for.
spec fn map_of<V>(entries: Seq<Entry<V>>) -> Map<Seq<char>, V> {
    Map::new(
        |k: Seq<char>| keys_of(entries).contains(k),
        |k: Seq<char>| entries[keys_of(entries).index_of(k)].value,
    )
}

/// In a list with distinct keys, the entry at `i` is what the map holds under its key.
proof fn lemma_map_of_entry<V>(entries: Seq<Entry<V>>, i: int)
    requires
        keys_of(entries).no_duplicates(),
        0 <= i < entries.len(),
    ensures
        map_of(entries).contains_key(entries[i].key@),
        map_of(entries)[entries[i].key@] == entries[i].value,
{
    let keys = keys_of(entries);
    assert(keys[i] == entries[i].key@);
    let j = keys.index_of(entries[i].key@);
    assert(0 <= j < keys.len() && keys[j] == entries[i].key@);
    assert(j == i);
}

/// A key that stands nowhere in the list is not in the map.
proof fn lemma_map_of_absent<V>(entries: Seq<Entry<V>>, key: Seq<char>)
    requires
        forall|j: int| 0 <= j < entries.len() ==> (#[trigger] entries[j]).key@ != key,
    ensures
        !map_of(entries).contains_key(key),
{
    let keys = keys_of(entries);
    if keys.contains(key) {
        let j = choose|j: int| 0 <= j < keys.len() && keys[j] == key;
        assert(entries[j].key@ == key);
    }
}

/// The domain of the map is finite and has as many keys as the list has entries.
proof fn lemma_map_of_len<V>(entries: Seq<Entry<V>>)
    requires
        keys_of(entries).no_duplicates(),
    ensures
        map_of(entries).dom().finite(),
        map_of(entries).dom().len() == entries.len(),
{
    let keys = keys_of(entries);
    assert(map_of(entries).dom() =~= keys.to_set());
    vstd::seq_lib::seq_to_set_is_finite(keys);
    keys.unique_seq_to_set();
}

/// Pushing an entry under a new key inserts it into the map.
proof fn lemma_map_of_push<V>(entries: Seq<Entry<V>>, e: Entry<V>)
    requires
        keys_of(entries).no_duplicates(),
        forall|j: int| 0 <= j < entries.len() ==> (#[trigger] entries[j]).key@ != e.key@,
    ensures
        keys_of(entries.push(e)).no_duplicates(),
        map_of(entries.push(e)) == map_of(entries).insert(e.key@, e.value),
{
    let after = entries.push(e);
    assert(keys_of(after) =~= keys_of(entries).push(e.key@));
    assert forall|i: int, j: int|
        0 <= i < keys_of(after).len() && 0 <= j < keys_of(after).len() && i != j implies keys_of(
        after,
    )[i] != keys_of(after)[j] by {
        if i < entries.len() {
            assert(keys_of(after)[i] == entries[i].key@);
        }
        if j < entries.len() {
            assert(keys_of(after)[j] == entries[j].key@);
        }
        if i < entries.len() && j < entries.len() {
            assert(keys_of(entries)[i] != keys_of(entries)[j]);
        }
    }
    let want = map_of(entries).insert(e.key@, e.value);
    assert forall|k: Seq<char>| map_of(after).contains_key(k) <==> want.contains_key(k) by {
        if map_of(after).contains_key(k) {
            let j = choose|j: int| 0 <= j < keys_of(after).len() && keys_of(after)[j] == k;
            if j < entries.len() {
                assert(keys_of(entries)[j] == k);
            }
        }
        if want.contains_key(k) {
            if k == e.key@ {
                assert(keys_of(after)[entries.len() as int] == k);
            } else {
                let j = choose|j: int| 0 <= j < keys_of(entries).len() && keys_of(entries)[j] == k;
                assert(keys_of(after)[j] == k);
            }
        }
    }
    assert forall|k: Seq<char>| map_of(after).contains_key(k) implies map_of(after)[k] == want[k] by {
        let j = choose|j: int| 0 <= j < keys_of(after).len() && keys_of(after)[j] == k;
        lemma_map_of_entry(after, j);
        if j < entries.len() {
            lemma_map_of_entry(entries, j);
        }
    }
    assert(map_of(after) =~= want);
}

/// Replacing the entry at `i` by one with the same key inserts the new value.
proof fn lemma_map_of_update<V>(entries: Seq<Entry<V>>, i: int, e: Entry<V>)
    requires
        keys_of(entries).no_duplicates(),
        0 <= i < entries.len(),
        entries[i].key@ == e.key@,
    ensures
        keys_of(entries.update(i, e)).no_duplicates(),
        map_of(entries.update(i, e)) == map_of(entries).insert(e.key@, e.value),
{
    let after = entries.update(i, e);
    assert(keys_of(after) =~= keys_of(entries));
    let want = map_of(entries).insert(e.key@, e.value);
    assert(keys_of(entries)[i] == e.key@);
    assert forall|k: Seq<char>| map_of(after).contains_key(k) implies map_of(after)[k] == want[k] by {
        let j = choose|j: int| 0 <= j < keys_of(after).len() && keys_of(after)[j] == k;
        lemma_map_of_entry(after, j);
        if j != i {
            lemma_map_of_entry(entries, j);
        }
    }
    assert(map_of(after) =~= want);
}

/// A finite map from text to values of type `V`.
#[derive(Debug)]
pub struct StrMap<V> {
    entries: Vec<Entry<V>>,
}

impl<V> View for StrMap<V> {
    type V = Map<Seq<char>, V>;

    closed spec fn view(&self) -> Map<Seq<char>, V> {
        map_of(self.entries@)
    }
}

impl<V> StrMap<V> {
    #[verifier::type_invariant]
    spec fn distinct_keys(&self) -> bool {
        keys_of(self.entries@).no_duplicates()
    }

    /// The empty map.
    pub fn new() -> (r: Self)
        ensures
            r@ == Map::<Seq<char>, V>::empty(),
    {
        let r = StrMap { entries: Vec::new() };
        proof {
            assert(keys_of(r.entries@) =~= Seq::<Seq<char>>::empty());
            assert(r@ =~= Map::<Seq<char>, V>::empty());
        }
        r
    }

    /// The position of `key` in the list, if it is there.
    fn position(&self, key: &String) -> (r: Option<usize>)
        ensures
            match r {
                Some(i) => i < self.entries@.len() && self.entries@[i as int].key@ == key@,
                None => forall|j: int|
                    0 <= j < self.entries@.len() ==> (#[trigger] self.entries@[j]).key@ != key@,
            },
    {
        let n = self.entries.len();
        let mut i: usize = 0;
        while i < n
            invariant
                i <= n,
                n == self.entries@.len(),
                forall|j: int| 0 <= j < i ==> (#[trigger] self.entries@[j]).key@ != key@,
            decreases n - i,
        {
            if self.entries[i].key == *key {
                return Some(i);
            }
            i += 1;
        }
        None
    }

    /// The number of keys.
    pub fn len(&self) -> (r: usize)
        ensures
            self@.dom().finite(),
            r == self@.dom().len(),
    {
        proof {
            use_type_invariant(self);
            lemma_map_of_len(self.entries@);
        }
        self.entries.len()
    }

    /// The value stored under `key`, if there is one.
    pub fn get(&self, key: &str) -> (r: Option<&V>)
        ensures
            match r {
                Some(v) => self@.contains_key(key@) && *v == self@[key@],
                None => !self@.contains_key(key@),
            },
    {
        let owned = key.to_owned();
        proof {
            use_type_invariant(self);
        }
        match self.position(&owned) {
            Some(i) => {
                proof {
                    lemma_map_of_entry(self.entries@, i as int);
                }
                Some(&self.entries[i].value)
            },
            None => {
                proof {
                    lemma_map_of_absent(self.entries@, key@);
                }
                None
            },
        }
    }

    /// Whether a value is stored under `key`.
    pub fn contains_key(&self, key: &str) -> (r: bool)
        ensures
            r == self@.contains_key(key@),
    {
        self.get(key).is_some()
    }

    /// Stores `value` under `key`, in place of the value that was there, if any.
    pub fn insert(&mut self, key: String, value: V)
        ensures
            final(self)@ == old(self)@.insert(key@, value),
    {
        proof {
            use_type_invariant(&*self);
        }
        let found = self.position(&key);
        let mut entries: Vec<Entry<V>> = Vec::new();
        proof {
            assert(keys_of(entries@) =~= Seq::<Seq<char>>::empty());
        }
        std::mem::swap(&mut entries, &mut self.entries);
        match found {
            Some(i) => {
                proof {
                    lemma_map_of_update(entries@, i as int, Entry { key, value });
                }
                entries.set(i, Entry { key, value });
            },
            None => {
                proof {
                    lemma_map_of_push(entries@, Entry { key, value });
                }
                entries.push(Entry { key, value });
            },
        }
        self.entries = entries;
    }

    /// The keys, each once.
    pub fn keys(&self) -> (r: Vec<String>)
        ensures
            texts(r@).no_duplicates(),
            texts(r@).to_set() == self@.dom(),
    {
        let n = self.entries.len();
        let mut r: Vec<String> = Vec::new();
        let mut i: usize = 0;
        while i < n
            invariant
                i <= n,
                n == self.entries@.len(),
                r@.len() == i,
                forall|j: int| 0 <= j < i ==> (#[trigger] r@[j])@ == self.entries@[j].key@,
            decreases n - i,
        {
            r.push(self.entries[i].key.clone());
            i += 1;
        }
        proof {
            use_type_invariant(self);
            assert(texts(r@) =~= keys_of(self.entries@));
            assert(self@.dom() =~= keys_of(self.entries@).to_set());
        }
        r
    }
}

} // verus!
