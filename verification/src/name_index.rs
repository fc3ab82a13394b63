//! A list of named things with ids: each record has an id, the id of what it
//! belongs to, and a name that no other record under the same owner has.
//! Ids are handed out in ascending order and never again.

use vstd::prelude::*;

verus! {

/// A named thing: its id, the id of its owner, and its name.
#[derive(Debug, Clone, PartialEq, Eq)]
pub struct NameRecord {
    pub id: u64,
    pub owner_id: u64,
    pub name: String,
}

/// The mathematical value of a [`NameRecord`].
pub struct Named {
    pub id: u64,
    pub owner_id: u64,
    pub name: Seq<char>,
}

impl View for NameRecord {
    type V = Named;

    open spec fn view(&self) -> Named {
        Named { id: self.id, owner_id: self.owner_id, name: self.name@ }
    }
}

/// The values of a list of records.
pub open spec fn records_view(records: Seq<NameRecord>) -> Seq<Named> {
    records.map_values(|record: NameRecord| record@)
}

/// The records of an index as a value, with the next id to hand out.
pub struct IndexState {
    pub records: Seq<Named>,
    pub next_id: u64,
}

impl IndexState {
    pub open spec fn empty() -> IndexState {
        IndexState { records: Seq::empty(), next_id: 0 }
    }

    /// Whether the record at `i` is the one of the owner and the name.
    pub open spec fn named_at(self, i: int, owner_id: u64, name: Seq<char>) -> bool {
        0 <= i < self.records.len() && self.records[i].owner_id == owner_id && self.records[i].name
            == name
    }

    /// Whether the record at `i` has the id.
    pub open spec fn id_at(self, i: int, id: u64) -> bool {
        0 <= i < self.records.len() && self.records[i].id == id
    }

    /// Ids ascend along the records and stay below the next id; no two
    /// records of one owner share a name.
    pub open spec fn wf(self) -> bool {
        &&& forall|i: int|
            0 <= i < self.records.len() ==> (#[trigger] self.records[i]).id < self.next_id
        &&& forall|i: int, j: int|
            0 <= i < j < self.records.len() ==> (#[trigger] self.records[i]).id < (
            #[trigger] self.records[j]).id
        &&& forall|i: int, j: int, owner_id: u64, name: Seq<char>|
            #[trigger] self.named_at(i, owner_id, name) && #[trigger] self.named_at(
                j,
                owner_id,
                name,
            ) ==> i == j
    }

    /// The id of the record of the owner and the name.
    pub open spec fn find(self, owner_id: u64, name: Seq<char>) -> Option<u64> {
        if exists|i: int| self.named_at(i, owner_id, name) {
            Some(self.records[choose|i: int| self.named_at(i, owner_id, name)].id)
        } else {
            None
        }
    }

    /// The record of the id.
    pub open spec fn record(self, id: u64) -> Option<Named> {
        if exists|i: int| self.id_at(i, id) {
            Some(self.records[choose|i: int| self.id_at(i, id)])
        } else {
            None
        }
    }

    /// The index with a record added under the next id.
    pub open spec fn added(self, owner_id: u64, name: Seq<char>) -> IndexState {
        IndexState {
            records: self.records.push(Named { id: self.next_id, owner_id, name }),
            next_id: (self.next_id + 1) as u64,
        }
    }

    /// The index without the record of the id.
    pub open spec fn removed(self, id: u64) -> IndexState {
        IndexState {
            records: self.records.filter(|record: Named| record.id != id),
            next_id: self.next_id,
        }
    }

    /// The index without the records of the owner.
    pub open spec fn without_owner(self, owner_id: u64) -> IndexState {
        IndexState {
            records: self.records.filter(|record: Named| record.owner_id != owner_id),
            next_id: self.next_id,
        }
    }
}

/// A record that is found under its name has the id that `find` gives.
pub proof fn lemma_find_at(state: IndexState, i: int, owner_id: u64, name: Seq<char>)
    requires
        state.wf(),
        state.named_at(i, owner_id, name),
    ensures
        state.find(owner_id, name) == Some(state.records[i].id),
{
    let j = choose|j: int| state.named_at(j, owner_id, name);
    assert(state.named_at(j, owner_id, name));
}

/// A record that is found under its id is the record that `record` gives.
pub proof fn lemma_record_at(state: IndexState, i: int)
    requires
        state.wf(),
        0 <= i < state.records.len(),
    ensures
        state.record(state.records[i].id) == Some(state.records[i]),
{
    assert(state.id_at(i, state.records[i].id));
    let j = choose|j: int| state.id_at(j, state.records[i].id);
    if j < i {
        assert(state.records[j].id < state.records[i].id);
    } else if i < j {
        assert(state.records[i].id < state.records[j].id);
    }
}

/// Adding a record under a name that the owner does not have yet keeps the
/// index well formed. The new record is found under its name with the id
/// that was next, an id that no record had; every other name is found as
/// before.
pub proof fn lemma_added(state: IndexState, owner_id: u64, name: Seq<char>)
    requires
        state.wf(),
        state.find(owner_id, name) is None,
        state.next_id < u64::MAX,
    ensures
        state.added(owner_id, name).wf(),
        state.added(owner_id, name).find(owner_id, name) == Some(state.next_id),
        state.record(state.next_id) is None,
        forall|other_owner: u64, other: Seq<char>|
            (other_owner != owner_id || other != name) ==> #[trigger] state.added(
                owner_id,
                name,
            ).find(other_owner, other) == state.find(other_owner, other),
        forall|id: u64|
            id != state.next_id ==> #[trigger] state.added(owner_id, name).record(id)
                == state.record(id),
{
    let after = state.added(owner_id, name);
    let last = state.records.len() as int;
    assert forall|i: int, j: int, o: u64, n: Seq<char>|
        #[trigger] after.named_at(i, o, n) && #[trigger] after.named_at(j, o, n) implies i == j by {
        if i < last && j < last {
            assert(state.named_at(i, o, n) && state.named_at(j, o, n));
        } else if i < last {
            assert(state.named_at(i, owner_id, name));
        } else if j < last {
            assert(state.named_at(j, owner_id, name));
        }
    }
    assert(after.named_at(last, owner_id, name));
    lemma_find_at(after, last, owner_id, name);
    if state.record(state.next_id) is Some {
        let i = choose|i: int| state.id_at(i, state.next_id);
        assert(state.records[i].id < state.next_id);
    }
    assert forall|other_owner: u64, other: Seq<char>|
        (other_owner != owner_id || other != name) implies #[trigger] after.find(
        other_owner,
        other,
    ) == state.find(other_owner, other) by {
        if exists|i: int| state.named_at(i, other_owner, other) {
            let i = choose|i: int| state.named_at(i, other_owner, other);
            assert(after.named_at(i, other_owner, other));
            lemma_find_at(after, i, other_owner, other);
        } else if exists|i: int| after.named_at(i, other_owner, other) {
            let i = choose|i: int| after.named_at(i, other_owner, other);
            assert(state.named_at(i, other_owner, other));
        }
    }
    assert forall|id: u64| id != state.next_id implies #[trigger] after.record(id) == state.record(
        id,
    ) by {
        if exists|i: int| state.id_at(i, id) {
            let i = choose|i: int| state.id_at(i, id);
            lemma_record_at(state, i);
            assert(after.records[i] == state.records[i]);
            lemma_record_at(after, i);
        } else if exists|i: int| after.id_at(i, id) {
            let i = choose|i: int| after.id_at(i, id);
            assert(state.id_at(i, id));
        }
    }
}

/// Taking records out keeps an index well formed, and a record that stays
/// is found as before, under its name and under its id.
pub proof fn lemma_filtered(state: IndexState, pred: spec_fn(Named) -> bool)
    requires
        state.wf(),
    ensures
        (IndexState { records: state.records.filter(pred), next_id: state.next_id }).wf(),
        forall|owner_id: u64, name: Seq<char>|
            #[trigger] (IndexState {
                records: state.records.filter(pred),
                next_id: state.next_id,
            }).find(owner_id, name) == (if exists|i: int|
                state.named_at(i, owner_id, name) && pred(state.records[i]) {
                state.find(owner_id, name)
            } else {
                None
            }),
        forall|id: u64|
            #[trigger] (IndexState {
                records: state.records.filter(pred),
                next_id: state.next_id,
            }).record(id) == (if exists|i: int| state.id_at(i, id) && pred(state.records[i]) {
                state.record(id)
            } else {
                None
            }),
{
    let kept = state.records.filter(pred);
    let after = IndexState { records: kept, next_id: state.next_id };
    assert forall|i: int| 0 <= i < kept.len() implies state.records.contains(#[trigger] kept[i])
        && pred(kept[i]) by {
        assert(kept.contains(kept[i]));
        state.records.lemma_filter_contains_rev(pred, kept[i]);
        state.records.lemma_filter_pred(pred, i);
    }
    assert forall|i: int| 0 <= i < kept.len() implies (#[trigger] kept[i]).id < state.next_id by {
        let k = choose|k: int| 0 <= k < state.records.len() && state.records[k] == kept[i];
        assert(state.records[k].id < state.next_id);
    }
    assert forall|i: int, j: int| 0 <= i < j < kept.len() implies (#[trigger] kept[i]).id < (
    #[trigger] kept[j]).id by {
        crate::table_state::lemma_filter_positions(state.records, pred, i, j);
        let (a, b) = choose|a: int, b: int|
            0 <= a < b < state.records.len() && state.records[a] == kept[i] && state.records[b]
                == kept[j];
        assert(state.records[a].id < state.records[b].id);
    }
    assert forall|i: int, j: int, o: u64, n: Seq<char>|
        #[trigger] after.named_at(i, o, n) && #[trigger] after.named_at(j, o, n) implies i == j by {
        if i < j {
            crate::table_state::lemma_filter_positions(state.records, pred, i, j);
            let (a, b) = choose|a: int, b: int|
                0 <= a < b < state.records.len() && state.records[a] == kept[i] && state.records[b]
                    == kept[j];
            assert(state.named_at(a, o, n) && state.named_at(b, o, n));
        } else if j < i {
            crate::table_state::lemma_filter_positions(state.records, pred, j, i);
            let (a, b) = choose|a: int, b: int|
                0 <= a < b < state.records.len() && state.records[a] == kept[j] && state.records[b]
                    == kept[i];
            assert(state.named_at(a, o, n) && state.named_at(b, o, n));
        }
    }
    assert forall|owner_id: u64, name: Seq<char>| #[trigger] after.find(owner_id, name) == (
    if exists|i: int| state.named_at(i, owner_id, name) && pred(state.records[i]) {
        state.find(owner_id, name)
    } else {
        None
    }) by {
        if exists|i: int| state.named_at(i, owner_id, name) && pred(state.records[i]) {
            let i = choose|i: int| state.named_at(i, owner_id, name) && pred(state.records[i]);
            lemma_find_at(state, i, owner_id, name);
            state.records.lemma_filter_contains(pred, i);
            let k = choose|k: int| 0 <= k < kept.len() && kept[k] == state.records[i];
            assert(after.named_at(k, owner_id, name));
            lemma_find_at(after, k, owner_id, name);
        } else if exists|k: int| after.named_at(k, owner_id, name) {
            let k = choose|k: int| after.named_at(k, owner_id, name);
            let i = choose|i: int| 0 <= i < state.records.len() && state.records[i] == kept[k];
            assert(state.named_at(i, owner_id, name) && pred(state.records[i]));
        }
    }
    assert forall|id: u64| #[trigger] after.record(id) == (if exists|i: int|
        state.id_at(i, id) && pred(state.records[i]) {
        state.record(id)
    } else {
        None
    }) by {
        if exists|i: int| state.id_at(i, id) && pred(state.records[i]) {
            let i = choose|i: int| state.id_at(i, id) && pred(state.records[i]);
            lemma_record_at(state, i);
            state.records.lemma_filter_contains(pred, i);
            let k = choose|k: int| 0 <= k < kept.len() && kept[k] == state.records[i];
            lemma_record_at(after, k);
        } else if exists|k: int| after.id_at(k, id) {
            let k = choose|k: int| after.id_at(k, id);
            let i = choose|i: int| 0 <= i < state.records.len() && state.records[i] == kept[k];
            assert(state.id_at(i, id) && pred(state.records[i]));
        }
    }
}

/// An index of named things.
#[derive(Debug)]
pub struct NameIndex {
    records: Vec<NameRecord>,
    next_id: u64,
}

impl View for NameIndex {
    type V = IndexState;

    closed spec fn view(&self) -> IndexState {
        IndexState { records: records_view(self.records@), next_id: self.next_id }
    }
}

impl NameIndex {
    #[verifier::type_invariant]
    spec fn inv(self) -> bool {
        self@.wf()
    }

    /// An index without records.
    pub fn new() -> (index: NameIndex)
        ensures
            index@ == IndexState::empty(),
    {
        let index = NameIndex { records: Vec::new(), next_id: 0 };
        assert(index@.records =~= IndexState::empty().records);
        index
    }

    /// The id of the record of the owner and the name, if there is one.
    pub fn find(&self, owner_id: u64, name: &str) -> (id: Option<u64>)
        ensures
            id == self@.find(owner_id, name@),
            self@.wf(),
    {
        proof {
            use_type_invariant(self);
        }
        let wanted = name.to_owned();
        let mut i: usize = 0;
        while i < self.records.len()
            invariant
                i <= self.records.len(),
                wanted@ == name@,
                self@.wf(),
                forall|j: int| 0 <= j < i ==> !self@.named_at(j, owner_id, name@),
            decreases self.records.len() - i,
        {
            if self.records[i].owner_id == owner_id && self.records[i].name == wanted {
                proof {
                    assert(self@.named_at(i as int, owner_id, name@));
                    lemma_find_at(self@, i as int, owner_id, name@);
                }
                return Some(self.records[i].id);
            }
            assert(!self@.named_at(i as int, owner_id, name@));
            i = i + 1;
        }
        None
    }

    /// The owner and the name of the record of the id, if there is one.
    pub fn lookup(&self, id: u64) -> (found: Option<(u64, String)>)
        ensures
            match found {
                Some((owner_id, name)) => self@.record(id) == Some(
                    Named { id, owner_id, name: name@ },
                ),
                None => self@.record(id) is None,
            },
            self@.wf(),
    {
        proof {
            use_type_invariant(self);
        }
        let mut i: usize = 0;
        while i < self.records.len()
            invariant
                i <= self.records.len(),
                self@.wf(),
                forall|j: int| 0 <= j < i ==> !self@.id_at(j, id),
            decreases self.records.len() - i,
        {
            if self.records[i].id == id {
                proof {
                    lemma_record_at(self@, i as int);
                }
                return Some((self.records[i].owner_id, self.records[i].name.clone()));
            }
            assert(!self@.id_at(i as int, id));
            i = i + 1;
        }
        None
    }

    /// An index is well formed at all times.
    pub fn check(&self)
        ensures
            self@.wf(),
    {
        proof {
            use_type_invariant(self);
        }
    }

    /// Whether an id is left to hand out.
    pub fn has_room(&self) -> (room: bool)
        ensures
            room == (self@.next_id < u64::MAX),
    {
        self.next_id < u64::MAX
    }

    /// Adds a record under the next id, unless the owner has one of the
    /// name, and says which id it got.
    pub fn add(&mut self, owner_id: u64, name: &str) -> (id: Option<u64>)
        requires
            old(self)@.next_id < u64::MAX,
        ensures
            match id {
                Some(id) => old(self)@.find(owner_id, name@) is None && id == old(self)@.next_id
                    && final(self)@ == old(self)@.added(owner_id, name@),
                None => old(self)@.find(owner_id, name@) is Some && final(self)@ == old(self)@,
            },
            final(self)@.wf(),
    {
        proof {
            use_type_invariant(&*self);
        }
        match self.find(owner_id, name) {
            Some(_) => None,
            None => {
                proof {
                    lemma_added(self@, owner_id, name@);
                }
                let id = self.next_id;
                let ghost before = self@.records;
                let mut records: Vec<NameRecord> = Vec::new();
                std::mem::swap(&mut records, &mut self.records);
                records.push(NameRecord { id, owner_id, name: name.to_owned() });
                assert(records_view(records@) =~= before.push(
                    Named { id, owner_id, name: name@ },
                ));
                self.next_id = id + 1;
                self.records = records;
                Some(id)
            },
        }
    }

    /// Takes out the record of the id, if there is one.
    pub fn remove(&mut self, id: u64)
        ensures
            final(self)@ == old(self)@.removed(id),
            final(self)@.wf(),
    {
        proof {
            use_type_invariant(&*self);
            lemma_filtered(self@, |record: Named| record.id != id);
        }
        let ghost pred = |record: Named| record.id != id;
        let ghost all = self@.records;
        let mut kept: Vec<NameRecord> = Vec::new();
        let mut i: usize = 0;
        proof {
            reveal(Seq::filter);
            assert(all.take(0) =~= Seq::empty());
            assert(records_view(kept@) =~= Seq::empty());
        }
        while i < self.records.len()
            invariant
                i <= self.records.len(),
                all == self@.records,
                self@ == old(self)@,
                pred == (|record: Named| record.id != id),
                records_view(kept@) == all.take(i as int).filter(pred),
            decreases self.records.len() - i,
        {
            proof {
                reveal(Seq::filter);
                assert(all.take(i + 1).drop_last() =~= all.take(i as int));
            }
            if self.records[i].id != id {
                let ghost before = records_view(kept@);
                kept.push(
                    NameRecord {
                        id: self.records[i].id,
                        owner_id: self.records[i].owner_id,
                        name: self.records[i].name.clone(),
                    },
                );
                assert(records_view(kept@) =~= before.push(all[i as int]));
            }
            i = i + 1;
        }
        assert(all.take(i as int) =~= all);
        self.records = kept;
    }

    /// Takes out the records of the owner.
    pub fn remove_owner(&mut self, owner_id: u64)
        ensures
            final(self)@ == old(self)@.without_owner(owner_id),
            final(self)@.wf(),
    {
        proof {
            use_type_invariant(&*self);
            lemma_filtered(self@, |record: Named| record.owner_id != owner_id);
        }
        let ghost pred = |record: Named| record.owner_id != owner_id;
        let ghost all = self@.records;
        let mut kept: Vec<NameRecord> = Vec::new();
        let mut i: usize = 0;
        proof {
            reveal(Seq::filter);
            assert(all.take(0) =~= Seq::empty());
            assert(records_view(kept@) =~= Seq::empty());
        }
        while i < self.records.len()
            invariant
                i <= self.records.len(),
                all == self@.records,
                self@ == old(self)@,
                pred == (|record: Named| record.owner_id != owner_id),
                records_view(kept@) == all.take(i as int).filter(pred),
            decreases self.records.len() - i,
        {
            proof {
                reveal(Seq::filter);
                assert(all.take(i + 1).drop_last() =~= all.take(i as int));
            }
            if self.records[i].owner_id != owner_id {
                let ghost before = records_view(kept@);
                kept.push(
                    NameRecord {
                        id: self.records[i].id,
                        owner_id: self.records[i].owner_id,
                        name: self.records[i].name.clone(),
                    },
                );
                assert(records_view(kept@) =~= before.push(all[i as int]));
            }
            i = i + 1;
        }
        assert(all.take(i as int) =~= all);
        self.records = kept;
    }

    /// The ids of the records of the owner, in ascending order.
    pub fn ids_of_owner(&self, owner_id: u64) -> (ids: Vec<u64>)
        ensures
            ids@ == self@.records.filter(|record: Named| record.owner_id == owner_id).map_values(
                |record: Named| record.id,
            ),
    {
        let ghost pred = |record: Named| record.owner_id == owner_id;
        let ghost all = self@.records;
        let mut ids: Vec<u64> = Vec::new();
        let mut i: usize = 0;
        proof {
            reveal(Seq::filter);
            assert(all.take(0) =~= Seq::empty());
            assert(ids@ =~= all.take(0).filter(pred).map_values(|record: Named| record.id));
        }
        while i < self.records.len()
            invariant
                i <= self.records.len(),
                all == self@.records,
                pred == (|record: Named| record.owner_id == owner_id),
                ids@ == all.take(i as int).filter(pred).map_values(|record: Named| record.id),
            decreases self.records.len() - i,
        {
            proof {
                reveal(Seq::filter);
                assert(all.take(i + 1).drop_last() =~= all.take(i as int));
            }
            if self.records[i].owner_id == owner_id {
                let ghost before = all.take(i as int).filter(pred);
                ids.push(self.records[i].id);
                assert(ids@ =~= before.push(all[i as int]).map_values(|record: Named| record.id));
            }
            i = i + 1;
        }
        assert(all.take(i as int) =~= all);
        ids
    }
}

} // verus!
