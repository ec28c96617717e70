//! A store held in memory, for where no remote store is at hand.

use vstd::prelude::*;
use crate::store::{read_view, StoreFault, StoreState};

verus! {

/// One key with its value.
struct Entry {
    key: String,
    value: String,
}

/// Whether some entry has the key `key`.
spec fn holds(entries: Seq<Entry>, key: Seq<char>) -> bool {
    exists|i: int| 0 <= i < entries.len() && #[trigger] entries[i].key@ == key
}

/// The place of an entry with the key `key`, where there is one.
spec fn place(entries: Seq<Entry>, key: Seq<char>) -> int {
    choose|i: int| 0 <= i < entries.len() && #[trigger] entries[i].key@ == key
}

/// No key stands in two entries.
spec fn distinct_keys(entries: Seq<Entry>) -> bool {
    forall|i: int, j: int|
        0 <= i < j < entries.len() ==> #[trigger] entries[i].key@ != #[trigger] entries[j].key@
}

/// The map that the entries stand for.
spec fn contents_of(entries: Seq<Entry>) -> Map<Seq<char>, Seq<char>> {
    Map::new(
        |key: Seq<char>| holds(entries, key),
        |key: Seq<char>| entries[place(entries, key)].value@,
    )
}

/// With distinct keys, the entry at `i` is the one that its key is found at.
proof fn lemma_place_is_unique(entries: Seq<Entry>, i: int)
    requires
        distinct_keys(entries),
        0 <= i < entries.len(),
    ensures
        holds(entries, entries[i].key@),
        place(entries, entries[i].key@) == i,
{
    let key = entries[i].key@;
    assert(entries[i].key@ == key);
    let j = place(entries, key);
    assert(0 <= j < entries.len() && entries[j].key@ == key);
    if j < i {
        assert(entries[j].key@ != entries[i].key@);
    } else if i < j {
        assert(entries[i].key@ != entries[j].key@);
    }
}

/// The place of the entry under `key`, if there is one.
fn find(entries: &Vec<Entry>, key: &String) -> (found: Option<usize>)
    ensures
        match found {
            Some(i) => i < entries.len() && entries@[i as int].key@ == key@,
            None => !holds(entries@, key@),
        },
{
    let mut i: usize = 0;
    while i < entries.len()
        invariant
            0 <= i <= entries.len(),
            forall|j: int| 0 <= j < i ==> #[trigger] entries@[j].key@ != key@,
        decreases entries.len() - i,
    {
        if entries[i].key == *key {
            return Some(i);
        }
        i += 1;
    }
    None
}

/// Stores `value` under `key`: in the entry that has the key, or else in a new
/// one.
fn put(entries: &mut Vec<Entry>, key: String, value: String)
    requires
        distinct_keys(old(entries)@),
    ensures
        distinct_keys(final(entries)@),
        contents_of(final(entries)@) == contents_of(old(entries)@).insert(key@, value@),
{
    let ghost before = entries@;
    match find(entries, &key) {
        Some(i) => {
            entries.set(i, Entry { key, value });
            proof {
                lemma_replaced(before, entries@, i as int);
            }
        },
        None => {
            entries.push(Entry { key, value });
            proof {
                lemma_appended(before, entries@);
            }
        },
    }
}

/// A store held in memory, which answers as the remote store is expected to:
/// a read returns what the last write under that key stored. It stands in for
/// the remote store where none is at hand, and can be taken out of reach.
pub struct MemoryStore {
    entries: Vec<Entry>,
    reachable: bool,
}

impl View for MemoryStore {
    type V = StoreState;

    closed spec fn view(&self) -> StoreState {
        StoreState { contents: contents_of(self.entries@), reachable: self.reachable }
    }
}

impl MemoryStore {
    #[verifier::type_invariant]
    spec fn well_formed(&self) -> bool {
        distinct_keys(self.entries@)
    }

    /// A reachable store that holds nothing.
    pub fn new() -> (store: MemoryStore)
        ensures
            store@ == StoreState::empty(),
    {
        let store = MemoryStore { entries: Vec::new(), reachable: true };
        proof {
            assert(store@.contents =~= Map::empty());
        }
        store
    }

    /// Puts the store within or out of reach. What it holds stays.
    pub fn set_reachable(&mut self, reachable: bool)
        ensures
            final(self)@ == (StoreState { contents: old(self)@.contents, reachable }),
    {
        proof {
            use_type_invariant(&*self);
        }
        self.reachable = reachable;
    }

    /// Reads the value under `key`.
    pub fn get(&self, key: &str) -> (read: Result<Option<String>, StoreFault>)
        ensures
            read_view(read) == self@.read(key@),
    {
        proof {
            use_type_invariant(self);
        }
        if !self.reachable {
            return Err(StoreFault);
        }
        let key = String::from_str(key);
        match find(&self.entries, &key) {
            Some(i) => {
                proof {
                    lemma_place_is_unique(self.entries@, i as int);
                }
                Ok(Some(self.entries[i].value.clone()))
            },
            None => Ok(None),
        }
    }

    /// Writes `value` under `key`, in place of what stood there.
    pub fn set(&mut self, key: String, value: String) -> (written: Result<(), StoreFault>)
        ensures
            written == old(self)@.write_result(),
            final(self)@ == old(self)@.write(key@, value@),
    {
        proof {
            use_type_invariant(&*self);
        }
        if !self.reachable {
            return Err(StoreFault);
        }
        let mut entries: Vec<Entry> = Vec::new();
        core::mem::swap(&mut self.entries, &mut entries);
        put(&mut entries, key, value);
        core::mem::swap(&mut self.entries, &mut entries);
        Ok(())
    }
}

/// Replacing the value of the entry at `i` is a write under its key.
proof fn lemma_replaced(before: Seq<Entry>, after: Seq<Entry>, i: int)
    requires
        distinct_keys(before),
        0 <= i < before.len(),
        after == before.update(i, after[i]),
        after[i].key@ == before[i].key@,
    ensures
        distinct_keys(after),
        contents_of(after) == contents_of(before).insert(after[i].key@, after[i].value@),
{
    let key = after[i].key@;
    let value = after[i].value@;
    assert forall|a: int, b: int| 0 <= a < b < after.len() implies #[trigger] after[a].key@
        != #[trigger] after[b].key@ by {
        assert(before[a].key@ != before[b].key@);
    }
    assert forall|k: Seq<char>| holds(after, k) <==> holds(before, k) by {
        if holds(after, k) {
            let j = place(after, k);
            assert(before[j].key@ == k);
        }
        if holds(before, k) {
            let j = place(before, k);
            assert(after[j].key@ == k);
        }
    }
    assert forall|k: Seq<char>| holds(after, k) implies #[trigger] contents_of(after)[k]
        == contents_of(before).insert(key, value)[k] by {
        let j = place(after, k);
        lemma_place_is_unique(after, j);
        lemma_place_is_unique(before, j);
    }
    assert(before[i].key@ == key);
    assert(contents_of(after) =~= contents_of(before).insert(key, value));
}

/// Appending an entry under a key that no entry has is a write under that key.
proof fn lemma_appended(before: Seq<Entry>, after: Seq<Entry>)
    requires
        distinct_keys(before),
        after.len() > 0,
        after == before.push(after.last()),
        !holds(before, after.last().key@),
    ensures
        distinct_keys(after),
        contents_of(after) == contents_of(before).insert(after.last().key@, after.last().value@),
{
    let n = before.len() as int;
    let key = after.last().key@;
    let value = after.last().value@;
    assert forall|a: int, b: int| 0 <= a < b < after.len() implies #[trigger] after[a].key@
        != #[trigger] after[b].key@ by {
        if b < n {
            assert(before[a].key@ != before[b].key@);
        } else {
            assert(before[a].key@ != key);
        }
    }
    assert(after[n].key@ == key);
    assert forall|k: Seq<char>| holds(after, k) <==> (holds(before, k) || k == key) by {
        if holds(after, k) {
            let j = place(after, k);
            if j < n {
                assert(before[j].key@ == k);
            }
        }
        if holds(before, k) {
            let j = place(before, k);
            assert(after[j].key@ == k);
        }
    }
    assert forall|k: Seq<char>| holds(after, k) implies #[trigger] contents_of(after)[k]
        == contents_of(before).insert(key, value)[k] by {
        let j = place(after, k);
        lemma_place_is_unique(after, j);
        if j < n {
            lemma_place_is_unique(before, j);
        }
    }
    assert(contents_of(after) =~= contents_of(before).insert(key, value));
}

} // verus!
