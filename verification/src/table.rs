//! A list of records that are found again by the text of their key.

use vstd::prelude::*;
use vstd::hash_map::StringHashMap;

verus! {

/// A record with a key by which it is looked up.
pub trait Keyed {
    /// The key of the record.
    spec fn key(&self) -> Seq<char>;

    /// The key of the record, as text.
    fn key_text(&self) -> (s: &str)
        ensures
            s@ == self.key(),
    ;
}

/// The first record of `entries` whose key is `key`.
pub open spec fn find<T: Keyed>(entries: Seq<T>, key: Seq<char>) -> Option<T>
    decreases entries.len(),
{
    if entries.len() == 0 {
        None
    } else if entries[0].key() == key {
        Some(entries[0])
    } else {
        find(entries.drop_first(), key)
    }
}

/// Whether `i` is the first position of `entries` that holds `key`.
pub open spec fn is_first<T: Keyed>(entries: Seq<T>, key: Seq<char>, i: int) -> bool {
    &&& 0 <= i < entries.len()
    &&& entries[i].key() == key
    &&& forall|j: int| 0 <= j < i ==> entries[j].key() != key
}

/// A key that no record holds is not found.
pub proof fn lemma_find_none<T: Keyed>(entries: Seq<T>, key: Seq<char>)
    requires
        forall|j: int| 0 <= j < entries.len() ==> entries[j].key() != key,
    ensures
        find(entries, key) is None,
    decreases entries.len(),
{
    if entries.len() > 0 {
        lemma_find_none(entries.drop_first(), key);
    }
}

/// A key is found at the first position that holds it.
pub proof fn lemma_find_first<T: Keyed>(entries: Seq<T>, key: Seq<char>, i: int)
    requires
        is_first(entries, key, i),
    ensures
        find(entries, key) == Some(entries[i]),
    decreases entries.len(),
{
    if i > 0 {
        lemma_find_first(entries.drop_first(), key, i - 1);
    }
}

/// A key that is not found is the key of no record.
pub proof fn lemma_find_none_absent<T: Keyed>(entries: Seq<T>, key: Seq<char>)
    requires
        find(entries, key) is None,
    ensures
        forall|j: int| 0 <= j < entries.len() ==> (#[trigger] entries[j]).key() != key,
    decreases entries.len(),
{
    if entries.len() > 0 {
        lemma_find_none_absent(entries.drop_first(), key);
        assert forall|j: int| 0 <= j < entries.len() implies (#[trigger] entries[j]).key()
            != key by {
            if j > 0 {
                assert(entries.drop_first()[j - 1] == entries[j]);
            }
        }
    }
}

/// What is found is one of the records, and holds the key it was found by.
pub proof fn lemma_find_some<T: Keyed>(entries: Seq<T>, key: Seq<char>)
    requires
        find(entries, key) is Some,
    ensures
        find(entries, key)->0.key() == key,
        entries.contains(find(entries, key)->0),
    decreases entries.len(),
{
    if entries[0].key() == key {
        assert(entries[0] == find(entries, key)->0);
    } else {
        lemma_find_some(entries.drop_first(), key);
        let found = find(entries, key)->0;
        let k = choose|k: int|
            0 <= k < entries.drop_first().len() && entries.drop_first()[k] == found;
        assert(entries[k + 1] == found);
    }
}

/// Whether no two records hold the same key, as in a map.
pub open spec fn distinct_keys<T: Keyed>(entries: Seq<T>) -> bool {
    forall|i: int, j: int|
        0 <= i < j < entries.len() ==> (#[trigger] entries[i]).key() != (
        #[trigger] entries[j]).key()
}

/// Whether two lists hold the same records, in whatever order.
pub open spec fn same_records<T>(a: Seq<T>, b: Seq<T>) -> bool {
    forall|e: T| a.contains(e) <==> b.contains(e)
}

/// Where keys are distinct, every record is the one found by its key: none
/// stands in the shadow of another.
pub proof fn lemma_distinct_keys_found<T: Keyed>(entries: Seq<T>, i: int)
    requires
        distinct_keys(entries),
        0 <= i < entries.len(),
    ensures
        find(entries, entries[i].key()) == Some(entries[i]),
{
    assert(is_first(entries, entries[i].key(), i));
    lemma_find_first(entries, entries[i].key(), i);
}

/// Where keys are distinct, what is found does not depend on the order of
/// the records: a list of the same records finds the same record by every
/// key.
pub proof fn lemma_find_order_independent<T: Keyed>(a: Seq<T>, b: Seq<T>, key: Seq<char>)
    requires
        distinct_keys(a),
        same_records(a, b),
    ensures
        find(a, key) == find(b, key),
{
    if find(b, key) is Some {
        lemma_find_some(b, key);
        let found = find(b, key)->0;
        assert(a.contains(found));
        let i = choose|i: int| 0 <= i < a.len() && a[i] == found;
        lemma_distinct_keys_found(a, i);
    } else {
        lemma_find_none_absent(b, key);
        if find(a, key) is Some {
            lemma_find_some(a, key);
            let found = find(a, key)->0;
            assert(b.contains(found));
            let j = choose|j: int| 0 <= j < b.len() && b[j] == found;
            assert(b[j].key() == key);
        }
    }
}

/// Records in a fixed order, with a table of the position at which each key
/// first occurs.
pub struct Table<T: Keyed> {
    entries: Vec<T>,
    positions: StringHashMap<usize>,
}

impl<T: Keyed> Table<T> {
    #[verifier::type_invariant]
    spec fn well_formed(&self) -> bool {
        &&& forall|k: Seq<char>| #[trigger]
            self.positions@.contains_key(k) ==> is_first(
                self.entries@,
                k,
                self.positions@[k] as int,
            )
        &&& forall|i: int|
            0 <= i < self.entries@.len() ==> self.positions@.contains_key(
                #[trigger] self.entries@[i].key(),
            )
    }

    /// The records, in their order.
    pub closed spec fn entries(&self) -> Seq<T> {
        self.entries@
    }

    /// Builds the table of the given records.
    pub fn new(entries: Vec<T>) -> (t: Self)
        ensures
            t.entries() == entries@,
    {
        let mut positions: StringHashMap<usize> = StringHashMap::new();
        let mut i: usize = 0;
        while i < entries.len()
            invariant
                i <= entries.len(),
                forall|k: Seq<char>| #[trigger]
                    positions@.contains_key(k) ==> is_first(entries@, k, positions@[k] as int)
                        && positions@[k] < i,
                forall|j: int|
                    0 <= j < i ==> positions@.contains_key(#[trigger] entries@[j].key()),
            decreases entries.len() - i,
        {
            let key = entries[i].key_text();
            if !positions.contains_key(key) {
                positions.insert(String::from_str(key), i);
            }
            i = i + 1;
        }
        Table { entries, positions }
    }

    /// The number of records.
    pub fn len(&self) -> (n: usize)
        ensures
            n == self.entries().len(),
    {
        self.entries.len()
    }

    /// The record at position `i`.
    pub fn entry(&self, i: usize) -> (e: &T)
        requires
            i < self.entries().len(),
        ensures
            *e == self.entries()[i as int],
    {
        &self.entries[i]
    }

    /// Looks up the first record with the given key.
    pub fn get(&self, key: &str) -> (r: Option<&T>)
        ensures
            match r {
                Some(e) => find(self.entries(), key@) == Some(*e),
                None => find(self.entries(), key@) is None,
            },
    {
        proof {
            use_type_invariant(self);
        }
        match self.positions.get(key) {
            Some(p) => {
                proof {
                    lemma_find_first(self.entries@, key@, *p as int);
                }
                Some(&self.entries[*p])
            },
            None => {
                proof {
                    lemma_find_none(self.entries@, key@);
                }
                None
            },
        }
    }
}

} // verus!
