//! The mathematical state of a table and what each storage operation does
//! to it.

use crate::binary::{lemma_keys_injective, lemma_keys_ordered, spec_key};
use crate::bytes_order::lex_lt;
use vstd::prelude::*;

verus! {

/// A table as a value: its records in the order of their ids, each with the
/// packed tuple it holds, and the two counters.
pub struct TableState {
    pub records: Seq<(u64, Seq<u8>)>,
    pub next_record_id: u64,
    pub next_column_ord: u64,
}

/// The bytes of the concatenation of all batches, in order.
pub open spec fn concat_all(batches: Seq<Seq<Seq<u8>>>) -> Seq<Seq<u8>>
    decreases batches.len(),
{
    if batches.len() == 0 {
        Seq::empty()
    } else {
        concat_all(batches.drop_last()) + batches.last()
    }
}

impl TableState {
    /// A table that was just created.
    pub open spec fn empty() -> TableState {
        TableState { records: Seq::empty(), next_record_id: 0, next_column_ord: 0 }
    }

    /// Record ids grow along the records and stay below the counter.
    pub open spec fn wf(self) -> bool {
        &&& forall|i: int|
            0 <= i < self.records.len() ==> (#[trigger] self.records[i]).0 < self.next_record_id
        &&& forall|i: int, j: int|
            0 <= i < j < self.records.len() ==> (#[trigger] self.records[i]).0 < (
            #[trigger] self.records[j]).0
    }

    /// What a scan yields: key and value of each record, in order.
    pub open spec fn rows(self) -> Seq<(Seq<u8>, Seq<u8>)> {
        self.records.map_values(|r: (u64, Seq<u8>)| (spec_key(r.0), r.1))
    }

    /// Whether a record is stored under the key.
    pub open spec fn has_key(self, key: Seq<u8>) -> bool {
        exists|i: int| 0 <= i < self.records.len() && spec_key((#[trigger] self.records[i]).0) == key
    }

    /// The number of record ids that are still free.
    pub open spec fn room(self) -> nat {
        (u64::MAX - self.next_record_id) as nat
    }

    /// The number of values that an insert of `len` values stores.
    pub open spec fn accepted(self, len: nat) -> nat {
        if len <= self.room() {
            len
        } else {
            self.room()
        }
    }

    /// The table after an insert: each value under the next free id.
    pub open spec fn inserted(self, values: Seq<Seq<u8>>) -> TableState {
        let n = self.accepted(values.len());
        TableState {
            records: self.records + Seq::new(
                n,
                |i: int| ((self.next_record_id + i) as u64, values[i]),
            ),
            next_record_id: (self.next_record_id + n) as u64,
            next_column_ord: self.next_column_ord,
        }
    }

    /// The table with the value of the record under `key` replaced.
    pub open spec fn with_value(self, key: Seq<u8>, value: Seq<u8>) -> TableState {
        TableState {
            records: self.records.map_values(
                |r: (u64, Seq<u8>)|
                    if spec_key(r.0) == key {
                        (r.0, value)
                    } else {
                        r
                    },
            ),
            next_record_id: self.next_record_id,
            next_column_ord: self.next_column_ord,
        }
    }

    /// The table after an update: the pairs applied in order.
    pub open spec fn updated(self, pairs: Seq<(Seq<u8>, Seq<u8>)>) -> TableState
        decreases pairs.len(),
    {
        if pairs.len() == 0 {
            self
        } else {
            self.updated(pairs.drop_last()).with_value(pairs.last().0, pairs.last().1)
        }
    }

    /// How many of the pairs name the key of a stored record.
    pub open spec fn hits(self, pairs: Seq<(Seq<u8>, Seq<u8>)>) -> nat
        decreases pairs.len(),
    {
        if pairs.len() == 0 {
            0
        } else {
            self.hits(pairs.drop_last()) + if self.has_key(pairs.last().0) {
                1nat
            } else {
                0nat
            }
        }
    }

    /// The table after a delete: without the records whose key is listed.
    pub open spec fn deleted(self, keys: Seq<Seq<u8>>) -> TableState {
        TableState {
            records: self.records.filter(|r: (u64, Seq<u8>)| !keys.contains(spec_key(r.0))),
            next_record_id: self.next_record_id,
            next_column_ord: self.next_column_ord,
        }
    }

    /// The table after one column ordinal was handed out.
    pub open spec fn with_column_added(self) -> TableState {
        TableState {
            records: self.records,
            next_record_id: self.next_record_id,
            next_column_ord: (self.next_column_ord + 1) as u64,
        }
    }

    /// The table after the batches were inserted one after the other.
    pub open spec fn inserted_all(self, batches: Seq<Seq<Seq<u8>>>) -> TableState
        decreases batches.len(),
    {
        if batches.len() == 0 {
            self
        } else {
            self.inserted_all(batches.drop_last()).inserted(batches.last())
        }
    }
}

/// A scan yields the rows in strictly ascending order of their keys.
pub proof fn lemma_rows_ordered(state: TableState, i: int, j: int)
    requires
        state.wf(),
        0 <= i < j < state.records.len(),
    ensures
        lex_lt(state.rows()[i].0, state.rows()[j].0),
{
    lemma_keys_ordered(state.records[i].0, state.records[j].0);
}

/// No two rows of a table share a key.
pub proof fn lemma_keys_unique(state: TableState, i: int, j: int)
    requires
        state.wf(),
        0 <= i < state.records.len(),
        0 <= j < state.records.len(),
        state.rows()[i].0 == state.rows()[j].0,
    ensures
        i == j,
{
    lemma_keys_injective(state.records[i].0, state.records[j].0);
}

/// An insert keeps the table well formed, keeps what was stored, and gives
/// every new record an id that no record had before: ids at or above the
/// former counter, one after the other.
pub proof fn lemma_insert_allocates_fresh_ids(state: TableState, values: Seq<Seq<u8>>)
    requires
        state.wf(),
    ensures
        state.inserted(values).wf(),
        state.inserted(values).next_record_id >= state.next_record_id,
        state.inserted(values).records.len() == state.records.len() + state.accepted(values.len()),
        forall|i: int|
            0 <= i < state.records.len() ==> #[trigger] state.inserted(values).records[i]
                == state.records[i],
        forall|i: int|
            0 <= i < state.accepted(values.len()) ==> #[trigger] state.inserted(
                values,
            ).records[state.records.len() + i] == ((state.next_record_id + i) as u64, values[i]),
{
}

/// An update changes no key and no counter.
pub proof fn lemma_update_keeps_keys(state: TableState, pairs: Seq<(Seq<u8>, Seq<u8>)>)
    ensures
        state.updated(pairs).records.len() == state.records.len(),
        forall|i: int|
            0 <= i < state.records.len() ==> (#[trigger] state.updated(pairs).records[i]).0
                == state.records[i].0,
        state.updated(pairs).next_record_id == state.next_record_id,
        state.updated(pairs).next_column_ord == state.next_column_ord,
        state.wf() ==> state.updated(pairs).wf(),
        forall|key: Seq<u8>| state.updated(pairs).has_key(key) == state.has_key(key),
    decreases pairs.len(),
{
    if pairs.len() > 0 {
        lemma_update_keeps_keys(state, pairs.drop_last());
        let before = state.updated(pairs.drop_last());
        let after = state.updated(pairs);
        assert forall|key: Seq<u8>| after.has_key(key) == state.has_key(key) by {
            if state.has_key(key) {
                let i = choose|i: int|
                    0 <= i < state.records.len() && spec_key((#[trigger] state.records[i]).0)
                        == key;
                assert(spec_key(after.records[i].0) == key);
            }
            if after.has_key(key) {
                let i = choose|i: int|
                    0 <= i < after.records.len() && spec_key((#[trigger] after.records[i]).0)
                        == key;
                assert(spec_key(state.records[i].0) == key);
            }
        }
    }
}

/// A delete keeps the counters and the order, and leaves exactly the
/// records whose key is not listed.
pub proof fn lemma_delete_keeps_order(state: TableState, keys: Seq<Seq<u8>>)
    requires
        state.wf(),
    ensures
        state.deleted(keys).wf(),
        state.deleted(keys).records.len() <= state.records.len(),
        forall|key: Seq<u8>|
            state.deleted(keys).has_key(key) == (state.has_key(key) && !keys.contains(key)),
    decreases state.records.len(),
{
    let pred = |r: (u64, Seq<u8>)| !keys.contains(spec_key(r.0));
    let kept = state.records.filter(pred);
    state.records.lemma_filter_len(pred);
    let after = state.deleted(keys);
    assert forall|i: int| 0 <= i < kept.len() implies (#[trigger] kept[i]).0
        < state.next_record_id by {
        assert(kept.contains(kept[i]));
        state.records.lemma_filter_contains_rev(pred, kept[i]);
        let k = choose|k: int| 0 <= k < state.records.len() && state.records[k] == kept[i];
        assert(state.records[k].0 < state.next_record_id);
    }
    assert forall|i: int, j: int| 0 <= i < j < kept.len() implies (#[trigger] kept[i]).0 < (
    #[trigger] kept[j]).0 by {
        lemma_filter_positions(state.records, pred, i, j);
        let (a, b) = choose|a: int, b: int|
            0 <= a < b < state.records.len() && state.records[a] == kept[i] && state.records[b]
                == kept[j];
        assert(state.records[a].0 < state.records[b].0);
    }
    assert forall|key: Seq<u8>| after.has_key(key) == (state.has_key(key) && !keys.contains(
        key,
    )) by {
        if after.has_key(key) {
            let i = choose|i: int|
                0 <= i < after.records.len() && spec_key((#[trigger] after.records[i]).0) == key;
            assert(kept.contains(kept[i]));
            state.records.lemma_filter_contains_rev(pred, kept[i]);
            let k = choose|k: int| 0 <= k < state.records.len() && state.records[k] == kept[i];
            assert(spec_key(state.records[k].0) == key);
            state.records.lemma_filter_pred(pred, i);
            assert(pred(kept[i]));
            assert(state.has_key(key) && !keys.contains(key));
        }
        if state.has_key(key) && !keys.contains(key) {
            let k = choose|k: int|
                0 <= k < state.records.len() && spec_key((#[trigger] state.records[k]).0) == key;
            assert(pred(state.records[k]));
            state.records.lemma_filter_contains(pred, k);
            let i = choose|i: int| 0 <= i < kept.len() && kept[i] == state.records[k];
            assert(spec_key(after.records[i].0) == key);
            assert(after.has_key(key));
        }
    }
}

/// Two positions of a filtered sequence come from two positions of the
/// sequence, in the same order.
pub proof fn lemma_filter_positions<A>(s: Seq<A>, pred: spec_fn(A) -> bool, i: int, j: int)
    requires
        0 <= i < j < s.filter(pred).len(),
    ensures
        exists|a: int, b: int|
            0 <= a < b < s.len() && s[a] == s.filter(pred)[i] && s[b] == s.filter(pred)[j],
    decreases s.len(),
{
    reveal(Seq::filter);
    if s.len() > 0 {
        let front = s.drop_last();
        let sub = front.filter(pred);
        front.lemma_filter_len(pred);
        if pred(s.last()) && j == sub.len() {
            assert(sub.contains(sub[i]));
            front.lemma_filter_contains_rev(pred, sub[i]);
            let a = choose|a: int| 0 <= a < front.len() && front[a] == sub[i];
            assert(s[a] == s.filter(pred)[i] && s[s.len() - 1] == s.filter(pred)[j]);
        } else {
            lemma_filter_positions(front, pred, i, j);
            let (a, b) = choose|a: int, b: int|
                0 <= a < b < front.len() && front[a] == sub[i] && front[b] == sub[j];
            assert(s[a] == s.filter(pred)[i] && s[b] == s.filter(pred)[j]);
        }
    }
}

/// Two inserts in a row store what one insert of both batches stores.
pub proof fn lemma_insert_twice(state: TableState, first: Seq<Seq<u8>>, second: Seq<Seq<u8>>)
    ensures
        state.inserted(first).inserted(second) == state.inserted(first + second),
{
    let a = state.inserted(first).inserted(second);
    let b = state.inserted(first + second);
    assert(a.records =~= b.records);
}

/// Any run of inserts stores what one insert of all the values stores.
pub proof fn lemma_inserts_as_one(state: TableState, batches: Seq<Seq<Seq<u8>>>)
    ensures
        state.inserted_all(batches) == state.inserted(concat_all(batches)),
    decreases batches.len(),
{
    if batches.len() == 0 {
        assert(state.inserted(Seq::empty()).records =~= state.records);
    } else {
        lemma_inserts_as_one(state, batches.drop_last());
        lemma_insert_twice(state, concat_all(batches.drop_last()), batches.last());
    }
}

/// After inserts into a table that was just created, and nothing else, a
/// scan yields the values in the order in which they came, the i-th of them
/// under the key of the record id i - 1.
pub proof fn lemma_scan_after_inserts(batches: Seq<Seq<Seq<u8>>>)
    requires
        concat_all(batches).len() <= u64::MAX,
    ensures
        TableState::empty().inserted_all(batches).rows() == Seq::new(
            concat_all(batches).len(),
            |i: int| (spec_key(i as u64), concat_all(batches)[i]),
        ),
        TableState::empty().inserted_all(batches).next_record_id == concat_all(batches).len(),
{
    lemma_inserts_as_one(TableState::empty(), batches);
    let values = concat_all(batches);
    let state = TableState::empty().inserted(values);
    assert(state.rows() =~= Seq::new(values.len(), |i: int| (spec_key(i as u64), values[i])));
}

/// The id of a record is never given to another record of the table, also
/// after the record is gone: whatever is inserted after a delete gets an
/// id that no record had before the delete.
pub proof fn lemma_record_ids_not_reused(
    state: TableState,
    keys: Seq<Seq<u8>>,
    values: Seq<Seq<u8>>,
    old_index: int,
    new_index: int,
)
    requires
        state.wf(),
        0 <= old_index < state.records.len(),
        state.deleted(keys).records.len() <= new_index < state.deleted(keys).inserted(
            values,
        ).records.len(),
    ensures
        state.deleted(keys).inserted(values).records[new_index].0 >= state.next_record_id,
        state.deleted(keys).inserted(values).records[new_index].0
            != state.records[old_index].0,
        state.deleted(keys).inserted(values).rows()[new_index].0 != state.rows()[old_index].0,
{
    lemma_delete_keeps_order(state, keys);
    let after = state.deleted(keys).inserted(values);
    if spec_key(after.records[new_index].0) == spec_key(state.records[old_index].0) {
        lemma_keys_injective(after.records[new_index].0, state.records[old_index].0);
    }
}

} // verus!
