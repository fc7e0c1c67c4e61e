//! `IdMap`: a map from text keys (Notion page IDs, custom-field names) to values that
//! also remembers the order in which keys first arrived, so that it can be walked.

use vstd::prelude::*;
use vstd::hash_map::StringHashMap;

verus! {

/// The texts of a list of keys.
pub open spec fn key_texts(keys: Seq<String>) -> Seq<Seq<char>> {
    keys.map_values(|k: String| k@)
}

/// Every key occurs once in `list`, and `list` holds exactly the keys of `m`.
pub open spec fn keys_cover<V>(list: Seq<Seq<char>>, m: Map<Seq<char>, V>) -> bool {
    &&& list.no_duplicates()
    &&& forall|k: Seq<char>| #[trigger] m.contains_key(k) <==> list.contains(k)
}

proof fn lemma_keys_cover_push<V>(list: Seq<Seq<char>>, m: Map<Seq<char>, V>, key: Seq<char>, value: V)
    requires
        keys_cover(list, m),
        !m.contains_key(key),
    ensures
        keys_cover(list.push(key), m.insert(key, value)),
{
    let l2 = list.push(key);
    let m2 = m.insert(key, value);
    assert(!list.contains(key));
    assert forall|k: Seq<char>| #[trigger] m2.contains_key(k) <==> l2.contains(k) by {
        if k == key {
            assert(l2[list.len() as int] == k);
        } else {
            if list.contains(k) {
                let j = choose|j: int| 0 <= j < list.len() && list[j] == k;
                assert(l2[j] == k);
            }
            if l2.contains(k) {
                let j = choose|j: int| 0 <= j < l2.len() && l2[j] == k;
                assert(list[j] == k);
            }
        }
    }
    assert forall|i: int, j: int| 0 <= i < l2.len() && 0 <= j < l2.len() && i != j implies l2[i]
        != l2[j] by {
        if i < list.len() && j < list.len() {
            assert(list[i] != list[j]);
        } else if i < list.len() {
            assert(list.contains(list[i]));
        } else if j < list.len() {
            assert(list.contains(list[j]));
        }
    }
}

proof fn lemma_keys_cover_update<V>(list: Seq<Seq<char>>, m: Map<Seq<char>, V>, key: Seq<char>, value: V)
    requires
        keys_cover(list, m),
        m.contains_key(key),
    ensures
        keys_cover(list, m.insert(key, value)),
{
    assert forall|k: Seq<char>| #[trigger] m.insert(key, value).contains_key(k) <==> list.contains(
        k,
    ) by {
        assert(m.contains_key(k) <==> list.contains(k));
    }
}

/// A map from `String` keys to values, walkable in the order in which the keys were
/// first inserted.
#[verifier::reject_recursive_types(V)]
pub struct IdMap<V> {
    keys: Vec<String>,
    entries: StringHashMap<V>,
}

impl<V> View for IdMap<V> {
    type V = Map<Seq<char>, V>;

    closed spec fn view(&self) -> Map<Seq<char>, V> {
        self.entries@
    }
}

impl<V> IdMap<V> {
    /// The keys, in the order in which they were first inserted.
    pub closed spec fn key_list(&self) -> Seq<Seq<char>> {
        key_texts(self.keys@)
    }

    /// Every key occurs once in the key list, and the key list holds exactly the keys of
    /// the map. Every `IdMap` satisfies this.
    #[verifier::type_invariant]
    pub open spec fn wf(&self) -> bool {
        keys_cover(self.key_list(), self@)
    }

    /// An empty map.
    pub fn new() -> (m: Self)
        ensures
            m@ == Map::<Seq<char>, V>::empty(),
            m.key_list() == Seq::<Seq<char>>::empty(),
    {
        let keys: Vec<String> = Vec::new();
        let entries: StringHashMap<V> = StringHashMap::new();
        assert(key_texts(keys@) =~= Seq::<Seq<char>>::empty());
        IdMap { keys, entries }
    }

    /// Sets the value of `key`, replacing any earlier one; a new key goes to the end of
    /// the key list.
    pub fn insert(&mut self, key: String, value: V)
        ensures
            final(self)@ == old(self)@.insert(key@, value),
            final(self).key_list() == (if old(self)@.contains_key(key@) {
                old(self).key_list()
            } else {
                old(self).key_list().push(key@)
            }),
    {
        proof {
            use_type_invariant(&*self);
        }
        let ghost old_list = self.key_list();
        let ghost old_map = self@;
        let mut taken: IdMap<V> = IdMap::new();
        std::mem::swap(&mut taken, self);
        let IdMap { keys: mut keys, entries: mut entries } = taken;
        if entries.contains_key(key.as_str()) {
            proof {
                lemma_keys_cover_update(old_list, old_map, key@, value);
            }
            entries.insert(key, value);
            *self = IdMap { keys, entries };
        } else {
            proof {
                lemma_keys_cover_push(old_list, old_map, key@, value);
            }
            let k2 = key.clone();
            keys.push(k2);
            entries.insert(key, value);
            assert(key_texts(keys@) =~= old_list.push(key@));
            *self = IdMap { keys, entries };
        }
    }

    /// The value of `key`, if it has one.
    pub fn get(&self, key: &str) -> (r: Option<&V>)
        ensures
            match r {
                Some(v) => self@.contains_key(key@) && *v == self@[key@],
                None => !self@.contains_key(key@),
            },
    {
        self.entries.get(key)
    }

    /// Whether `key` has a value.
    pub fn contains_key(&self, key: &str) -> (r: bool)
        ensures
            r == self@.contains_key(key@),
    {
        self.entries.contains_key(key)
    }

    /// The number of keys.
    pub fn len(&self) -> (n: usize)
        ensures
            n == self.key_list().len(),
    {
        self.keys.len()
    }

    /// The key at position `i` of the key list.
    pub fn key_at(&self, i: usize) -> (k: &String)
        requires
            i < self.key_list().len(),
        ensures
            k@ == self.key_list()[i as int],
    {
        &self.keys[i]
    }
}

} // verus!
