//! The pool's data: a small store from typed keys to values.

use crate::identity::Identifier;
use vstd::prelude::*;
use vstd::std_specs::cmp::PartialEqSpecImpl;

verus! {

/// The keys under which the pool keeps its data.
#[derive(Clone, Copy, Debug, Eq, Hash)]
pub enum DataKey {
    /// The address of the token that the pool operates with.
    Token,
    /// The nonce of a party.
    Nonce(Identifier),
    /// What has been borrowed against a party's collateral.
    Liability(Identifier),
    /// The credit of a party for the tokens it has deposited.
    Collateral(Identifier),
}

impl PartialEq for DataKey {
    fn eq(&self, other: &DataKey) -> (same: bool) {
        match (self, other) {
            (DataKey::Token, DataKey::Token) => true,
            (DataKey::Nonce(a), DataKey::Nonce(b)) => a == b,
            (DataKey::Liability(a), DataKey::Liability(b)) => a == b,
            (DataKey::Collateral(a), DataKey::Collateral(b)) => a == b,
            _ => false,
        }
    }
}

impl PartialEqSpecImpl for DataKey {
    open spec fn obeys_eq_spec() -> bool {
        true
    }

    open spec fn eq_spec(&self, other: &DataKey) -> bool {
        *self == *other
    }
}

/// A stored value: an address or an integer.
#[derive(Clone, Copy, Debug, PartialEq, Eq)]
pub enum DataValue {
    Address([u8; 32]),
    Int(i64),
}

/// Whether `value` is of the kind that is kept under `key`: an address under
/// `Token`, an integer under every other key.
pub open spec fn well_typed(key: DataKey, value: DataValue) -> bool {
    (key is Token) == (value is Address)
}

/// One key with the value stored under it.
#[derive(Clone, Copy, Debug, PartialEq, Eq)]
pub struct Entry {
    pub key: DataKey,
    pub value: DataValue,
}

/// Whether no key occurs twice in `s` and every value is of its key's kind.
pub open spec fn entries_ok(s: Seq<Entry>) -> bool {
    &&& forall|i: int, j: int|
        #![trigger s[i], s[j]]
        0 <= i < j < s.len() ==> s[i].key != s[j].key
    &&& forall|i: int| #![trigger s[i]] 0 <= i < s.len() ==> well_typed(s[i].key, s[i].value)
}

/// Whether some entry of `s` has the key `key`.
pub open spec fn holds_key(s: Seq<Entry>, key: DataKey) -> bool {
    exists|i: int| #![trigger s[i]] 0 <= i < s.len() && s[i].key == key
}

/// The map that the entries `s` stand for.
pub open spec fn entries_map(s: Seq<Entry>) -> Map<DataKey, DataValue> {
    Map::new(
        |key: DataKey| holds_key(s, key),
        |key: DataKey| s[choose|i: int| #![trigger s[i]] 0 <= i < s.len() && s[i].key == key].value,
    )
}

/// Each entry of a list without a repeated key is what the map holds under
/// the entry's key.
pub proof fn lemma_entry_in_map(s: Seq<Entry>, i: int)
    requires
        entries_ok(s),
        0 <= i < s.len(),
    ensures
        entries_map(s).contains_key(s[i].key),
        entries_map(s)[s[i].key] == s[i].value,
{
    let key = s[i].key;
    assert(holds_key(s, key));
    let j = choose|j: int| #![trigger s[j]] 0 <= j < s.len() && s[j].key == key;
    assert(j == i) by {
        if j < i {
            assert(s[j].key != s[i].key);
        }
        if i < j {
            assert(s[i].key != s[j].key);
        }
    }
}

/// A key-value store, keyed by [`DataKey`]. Its view is the map from the keys
/// that are present to their values.
///
/// No key is held twice, and the value under `Token` is an address while the
/// value under any other key is an integer.
#[derive(Debug)]
pub struct Store {
    entries: Vec<Entry>,
}

impl View for Store {
    type V = Map<DataKey, DataValue>;

    closed spec fn view(&self) -> Map<DataKey, DataValue> {
        entries_map(self.entries@)
    }
}

impl Store {
    #[verifier::type_invariant]
    spec fn inv(self) -> bool {
        entries_ok(self.entries@)
    }

    /// A store that holds nothing.
    pub fn new() -> (store: Store)
        ensures
            store@ == Map::<DataKey, DataValue>::empty(),
    {
        let store = Store { entries: Vec::new() };
        assert(store@ =~= Map::<DataKey, DataValue>::empty());
        store
    }

    /// The place of `key` among the entries, if it is there.
    fn find(&self, key: &DataKey) -> (place: Option<usize>)
        ensures
            match place {
                Some(i) => i < self.entries@.len() && self.entries@[i as int].key == *key,
                None => !holds_key(self.entries@, *key),
            },
    {
        let mut i: usize = 0;
        while i < self.entries.len()
            invariant
                i <= self.entries@.len(),
                forall|j: int| #![trigger self.entries@[j]] 0 <= j < i ==> self.entries@[j].key != *key,
            decreases self.entries@.len() - i,
        {
            if self.entries[i].key == *key {
                return Some(i);
            }
            i += 1;
        }
        None
    }

    /// Whether a value is stored under `key`.
    pub fn has(&self, key: &DataKey) -> (present: bool)
        ensures
            present == self@.contains_key(*key),
    {
        self.find(key).is_some()
    }

    /// The value stored under `key`, if there is one. It is of the key's kind.
    pub fn get(&self, key: &DataKey) -> (value: Option<DataValue>)
        ensures
            value == self@.get(*key),
            value matches Some(v) ==> well_typed(*key, v),
    {
        proof {
            use_type_invariant(self);
        }
        match self.find(key) {
            Some(i) => {
                proof {
                    lemma_entry_in_map(self.entries@, i as int);
                }
                Some(self.entries[i].value)
            },
            None => None,
        }
    }

    /// Stores `value` under `key`, in place of what was there.
    pub(crate) fn set(&mut self, key: DataKey, value: DataValue)
        requires
            well_typed(key, value),
        ensures
            final(self)@ == old(self)@.insert(key, value),
    {
        proof {
            use_type_invariant(&*self);
        }
        let place = self.find(&key);
        let ghost before = self.entries@;
        let mut entries: Vec<Entry> = Vec::new();
        std::mem::swap(&mut entries, &mut self.entries);
        match place {
            Some(i) => {
                entries.set(i, Entry { key, value });
            },
            None => {
                entries.push(Entry { key, value });
            },
        }
        proof {
            lemma_set(before, entries@, key, value);
        }
        self.entries = entries;
    }

    /// A copy of the list of entries.
    fn copy_entries(&self) -> (all: Vec<Entry>)
        ensures
            all@ == self.entries@,
    {
        let mut all: Vec<Entry> = Vec::new();
        let mut i: usize = 0;
        while i < self.entries.len()
            invariant
                i <= self.entries@.len(),
                all@ == self.entries@.subrange(0, i as int),
            decreases self.entries@.len() - i,
        {
            all.push(self.entries[i]);
            assert(all@ =~= self.entries@.subrange(0, i + 1));
            i += 1;
        }
        assert(all@ =~= self.entries@);
        all
    }

    /// The entries, each key once, in no particular order.
    pub fn entries(&self) -> (all: Vec<Entry>)
        ensures
            entries_ok(all@),
            entries_map(all@) == self@,
    {
        proof {
            use_type_invariant(self);
        }
        self.copy_entries()
    }
}

impl Clone for Store {
    fn clone(&self) -> (copy: Store)
        ensures
            copy@ == self@,
    {
        proof {
            use_type_invariant(self);
        }
        Store { entries: self.copy_entries() }
    }
}

/// Writing one entry, in place or at the end, is an insert into the map.
proof fn lemma_set(before: Seq<Entry>, after: Seq<Entry>, key: DataKey, value: DataValue)
    requires
        entries_ok(before),
        well_typed(key, value),
        (exists|i: int| 0 <= i < before.len() && before[i].key == key && after == before.update(i, Entry { key, value }))
        || (!holds_key(before, key) && after == before.push(Entry { key, value })),
    ensures
        entries_ok(after),
        entries_map(after) == entries_map(before).insert(key, value),
{
    let entry = Entry { key, value };
    assert(entries_ok(after));
    assert forall|k: DataKey| #[trigger] holds_key(after, k) <==> (k == key || holds_key(before, k)) by {
        if holds_key(after, k) {
            let j = choose|j: int| #![trigger after[j]] 0 <= j < after.len() && after[j].key == k;
            if k != key {
                assert(before[j].key == k);
            }
        }
        if holds_key(before, k) {
            let j = choose|j: int| #![trigger before[j]] 0 <= j < before.len() && before[j].key == k;
            assert(after[j].key == k);
        }
        if k == key {
            if holds_key(before, key) {
                let i = choose|i: int| 0 <= i < before.len() && before[i].key == key && after == before.update(i, entry);
                assert(after[i].key == key);
            } else {
                assert(after[before.len() as int].key == key);
            }
        }
    }
    assert forall|k: DataKey| holds_key(after, k) implies #[trigger] entries_map(after)[k] == entries_map(before).insert(key, value)[k] by {
        let j = choose|j: int| #![trigger after[j]] 0 <= j < after.len() && after[j].key == k;
        lemma_entry_in_map(after, j);
        if k != key {
            assert(before[j].key == k);
            lemma_entry_in_map(before, j);
        }
    }
    assert(entries_map(after) =~= entries_map(before).insert(key, value));
}

} // verus!
