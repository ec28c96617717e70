//! The store as the proxy sees it: text values under text keys, read and
//! written one key at a time, and possibly out of reach.

use vstd::prelude::*;

verus! {

/// A read or a write that the store did not carry out: it was out of reach, or
/// it answered out of protocol. No detail is kept.
#[derive(Clone, Copy, Debug, PartialEq, Eq, Structural)]
pub struct StoreFault;

/// What a read yields, as plain text: the value, `None` for a key that the
/// store does not hold, or a fault.
pub type ReadView = Result<Option<Seq<char>>, StoreFault>;

/// The state of a store: the keys it holds with their values, and whether it
/// answers at all.
pub struct StoreState {
    pub contents: Map<Seq<char>, Seq<char>>,
    pub reachable: bool,
}

impl StoreState {
    /// A reachable store that holds nothing.
    pub open spec fn empty() -> StoreState {
        StoreState { contents: Map::empty(), reachable: true }
    }

    /// What a read of `key` yields in this state.
    pub open spec fn read(self, key: Seq<char>) -> ReadView {
        if !self.reachable {
            Err(StoreFault)
        } else if self.contents.dom().contains(key) {
            Ok(Some(self.contents[key]))
        } else {
            Ok(None)
        }
    }

    /// What a write yields in this state: it fails exactly when the store is
    /// out of reach.
    pub open spec fn write_result(self) -> Result<(), StoreFault> {
        if self.reachable {
            Ok(())
        } else {
            Err(StoreFault)
        }
    }

    /// The state after a write of `value` under `key`: a store out of reach
    /// keeps what it held.
    pub open spec fn write(self, key: Seq<char>, value: Seq<char>) -> StoreState {
        if self.reachable {
            StoreState { contents: self.contents.insert(key, value), reachable: true }
        } else {
            self
        }
    }

    /// The state after the writes of `writes`, each a key and its value, in
    /// their order.
    pub open spec fn write_all(self, writes: Seq<(Seq<char>, Seq<char>)>) -> StoreState
        decreases writes.len(),
    {
        if writes.len() == 0 {
            self
        } else {
            self.write_all(writes.drop_last()).write(writes.last().0, writes.last().1)
        }
    }
}

/// The plain-text form of what a read returned.
pub open spec fn read_view(read: Result<Option<String>, StoreFault>) -> ReadView {
    match read {
        Ok(Some(value)) => Ok(Some(value@)),
        Ok(None) => Ok(None),
        Err(fault) => Err(fault),
    }
}

/// The writes go to keys that pairwise differ.
pub open spec fn distinct_targets(writes: Seq<(Seq<char>, Seq<char>)>) -> bool {
    forall|i: int, j: int| 0 <= i < j < writes.len() ==> writes[i].0 != writes[j].0
}

/// Whether one of the writes goes to `key`.
pub open spec fn targets(writes: Seq<(Seq<char>, Seq<char>)>, key: Seq<char>) -> bool {
    exists|i: int| 0 <= i < writes.len() && writes[i].0 == key
}

/// A run of writes leaves the store as reachable as it was.
pub proof fn lemma_writes_keep_reach(state: StoreState, writes: Seq<(Seq<char>, Seq<char>)>)
    ensures
        state.write_all(writes).reachable == state.reachable,
    decreases writes.len(),
{
    if writes.len() > 0 {
        lemma_writes_keep_reach(state, writes.drop_last());
    }
}

/// A store out of reach keeps its state through any run of writes.
pub proof fn lemma_unreachable_keeps(state: StoreState, writes: Seq<(Seq<char>, Seq<char>)>)
    requires
        !state.reachable,
    ensures
        state.write_all(writes) == state,
    decreases writes.len(),
{
    if writes.len() > 0 {
        lemma_unreachable_keeps(state, writes.drop_last());
    }
}

/// A key that none of a run of writes goes to reads after them as before.
pub proof fn lemma_writes_keep_other_keys(
    state: StoreState,
    writes: Seq<(Seq<char>, Seq<char>)>,
    key: Seq<char>,
)
    requires
        !targets(writes, key),
    ensures
        state.write_all(writes).read(key) == state.read(key),
    decreases writes.len(),
{
    if writes.len() > 0 {
        let earlier = writes.drop_last();
        lemma_writes_keep_reach(state, earlier);
        assert(!targets(earlier, key)) by {
            if targets(earlier, key) {
                let i = choose|i: int| 0 <= i < earlier.len() && earlier[i].0 == key;
                assert(writes[i].0 == key);
            }
        }
        lemma_writes_keep_other_keys(state, earlier, key);
        assert(writes[writes.len() - 1].0 != key);
    }
}

/// Writes to different keys do not interfere: after a run of writes to keys
/// that pairwise differ, a reachable store returns for each of these keys the
/// value written under it.
pub proof fn lemma_distinct_writes_all_land(
    state: StoreState,
    writes: Seq<(Seq<char>, Seq<char>)>,
    i: int,
)
    requires
        state.reachable,
        distinct_targets(writes),
        0 <= i < writes.len(),
    ensures
        state.write_all(writes).read(writes[i].0) == Ok::<Option<Seq<char>>, StoreFault>(
            Some(writes[i].1),
        ),
    decreases writes.len(),
{
    let earlier = writes.drop_last();
    let last = writes.len() - 1;
    lemma_writes_keep_reach(state, earlier);
    if i < last {
        assert(distinct_targets(earlier)) by {
            assert forall|a: int, b: int| 0 <= a < b < earlier.len() implies earlier[a].0
                != earlier[b].0 by {
                assert(writes[a].0 != writes[b].0);
            }
        }
        lemma_distinct_writes_all_land(state, earlier, i);
        assert(writes[i].0 != writes[last].0);
    }
}

/// The order of writes to different keys does not matter: two runs of the
/// same writes, to keys that pairwise differ, leave the same state.
pub proof fn lemma_write_order_is_irrelevant(
    state: StoreState,
    first: Seq<(Seq<char>, Seq<char>)>,
    second: Seq<(Seq<char>, Seq<char>)>,
)
    requires
        distinct_targets(first),
        distinct_targets(second),
        first.to_multiset() == second.to_multiset(),
    ensures
        state.write_all(first) == state.write_all(second),
{
    let left = state.write_all(first);
    let right = state.write_all(second);
    lemma_writes_keep_reach(state, first);
    lemma_writes_keep_reach(state, second);
    first.to_multiset_ensures();
    second.to_multiset_ensures();
    if state.reachable {
        assert forall|key: Seq<char>| left.read(key) == right.read(key) by {
            if targets(first, key) {
                let i = choose|i: int| 0 <= i < first.len() && first[i].0 == key;
                assert(first.contains(first[i]));
                assert(first.to_multiset().count(first[i]) > 0);
                assert(second.to_multiset().count(first[i]) > 0);
                assert(second.contains(first[i]));
                let j = choose|j: int| 0 <= j < second.len() && second[j] == first[i];
                lemma_distinct_writes_all_land(state, first, i);
                lemma_distinct_writes_all_land(state, second, j);
            } else {
                assert(!targets(second, key)) by {
                    if targets(second, key) {
                        let j = choose|j: int| 0 <= j < second.len() && second[j].0 == key;
                        assert(second.contains(second[j]));
                        assert(second.to_multiset().count(second[j]) > 0);
                        assert(first.to_multiset().count(second[j]) > 0);
                        assert(first.contains(second[j]));
                        let i = choose|i: int| 0 <= i < first.len() && first[i] == second[j];
                        assert(first[i].0 == key);
                    }
                }
                lemma_writes_keep_other_keys(state, first, key);
                lemma_writes_keep_other_keys(state, second, key);
            }
        }
        assert forall|key: Seq<char>| #[trigger]
            left.contents.dom().contains(key) implies right.contents.dom().contains(key)
            && left.contents[key] == right.contents[key] by {
            assert(left.read(key) == right.read(key));
        }
        assert forall|key: Seq<char>| #[trigger]
            right.contents.dom().contains(key) implies left.contents.dom().contains(key) by {
            assert(left.read(key) == right.read(key));
        }
        assert(left.contents =~= right.contents);
    } else {
        lemma_unreachable_keeps(state, first);
        lemma_unreachable_keeps(state, second);
    }
}

} // verus!
