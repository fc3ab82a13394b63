//! The volatile back-end: tables that keep their records in memory, and the
//! namespaces of schemas and tables that hold them.

use crate::binary::{spec_key, Binary};
use crate::table_state::TableState;
use dashmap::DashMap;
use vstd::prelude::*;

verus! {

/// The key of a row: the packed id of its record.
pub type Key = Binary;

/// The value of a row: the packed tuple of its columns.
pub type Value = Binary;

/// The rows of one scan, from the smallest key on.
#[derive(Debug)]
pub struct Cursor {
    rows: Vec<(Key, Value)>,
    position: usize,
}

/// The views of the values of an insert.
pub open spec fn values_view(values: Seq<Binary>) -> Seq<Seq<u8>> {
    values.map_values(|v: Binary| v@)
}

/// The views of the pairs of an update.
pub open spec fn pairs_view(pairs: Seq<(Binary, Binary)>) -> Seq<(Seq<u8>, Seq<u8>)> {
    pairs.map_values(|p: (Binary, Binary)| (p.0@, p.1@))
}

/// The views of stored records.
pub open spec fn records_view(records: Seq<(u64, Binary)>) -> Seq<(u64, Seq<u8>)> {
    records.map_values(|r: (u64, Binary)| (r.0, r.1@))
}

impl View for Cursor {
    type V = Seq<(Seq<u8>, Seq<u8>)>;

    /// The rows that the cursor has not handed out yet.
    closed spec fn view(&self) -> Seq<(Seq<u8>, Seq<u8>)> {
        pairs_view(self.rows@).skip(self.position as int)
    }
}

impl Cursor {
    #[verifier::type_invariant]
    spec fn inv(self) -> bool {
        self.position <= self.rows.len()
    }

    /// The next row, if one is left.
    pub fn next(&mut self) -> (row: Option<(Key, Value)>)
        ensures
            match row {
                Some((key, value)) => old(self)@.len() > 0 && (key@, value@) == old(self)@[0]
                    && final(self)@ == old(self)@.drop_first(),
                None => old(self)@.len() == 0 && final(self)@ == old(self)@,
            },
    {
        proof {
            use_type_invariant(&*self);
        }
        if self.position < self.rows.len() {
            let key = self.rows[self.position].0.copy();
            let value = self.rows[self.position].1.copy();
            self.position = self.position + 1;
            assert(self@ =~= old(self)@.drop_first());
            Some((key, value))
        } else {
            None
        }
    }

    /// All rows that are left, in order.
    pub fn collect(self) -> (rows: Vec<(Key, Value)>)
        ensures
            pairs_view(rows@) == self@,
    {
        proof {
            use_type_invariant(&self);
        }
        let mut rows: Vec<(Key, Value)> = Vec::new();
        let mut i: usize = self.position;
        while i < self.rows.len()
            invariant
                self.position <= i <= self.rows.len(),
                pairs_view(rows@) == pairs_view(self.rows@).subrange(
                    self.position as int,
                    i as int,
                ),
            decreases self.rows.len() - i,
        {
            let ghost before = pairs_view(rows@);
            rows.push((self.rows[i].0.copy(), self.rows[i].1.copy()));
            assert(pairs_view(rows@) =~= before.push(pairs_view(self.rows@)[i as int]));
            i = i + 1;
            assert(pairs_view(rows@) =~= pairs_view(self.rows@).subrange(
                self.position as int,
                i as int,
            ));
        }
        assert(pairs_view(rows@) =~= self@);
        rows
    }
}

/// A table in memory.
#[derive(Debug)]
pub struct InMemoryTableHandle {
    records: Vec<(u64, Binary)>,
    record_ids: u64,
    column_ords: u64,
}

impl View for InMemoryTableHandle {
    type V = TableState;

    closed spec fn view(&self) -> TableState {
        TableState {
            records: records_view(self.records@),
            next_record_id: self.record_ids,
            next_column_ord: self.column_ords,
        }
    }
}

impl Default for InMemoryTableHandle {
    fn default() -> (table: InMemoryTableHandle)
        ensures
            table@ == TableState::empty(),
    {
        let table = InMemoryTableHandle { records: Vec::new(), record_ids: 0, column_ords: 0 };
        assert(table@.records =~= TableState::empty().records);
        table
    }
}

/// Whether the key of the record `record_id` is among the keys.
fn lists_key_of(keys: &Vec<Key>, record_id: u64) -> (listed: bool)
    ensures
        listed == values_view(keys@).contains(spec_key(record_id)),
{
    let mut i: usize = 0;
    while i < keys.len()
        invariant
            i <= keys.len(),
            forall|j: int| 0 <= j < i ==> values_view(keys@)[j] != spec_key(record_id),
        decreases keys.len() - i,
    {
        match keys[i].record_id() {
            Some(id) => {
                if id == record_id {
                    assert(values_view(keys@)[i as int] == spec_key(record_id));
                    return true;
                }
                proof {
                    if spec_key(id) == spec_key(record_id) {
                        crate::binary::lemma_keys_injective(id, record_id);
                    }
                }
            },
            None => {},
        }
        i = i + 1;
    }
    false
}

/// The position of the record `record_id` among the records, if it is there.
fn position_of(records: &Vec<(u64, Binary)>, record_id: u64) -> (position: Option<usize>)
    ensures
        match position {
            Some(i) => i < records@.len() && records@[i as int].0 == record_id,
            None => forall|i: int| 0 <= i < records@.len() ==> (#[trigger] records@[i]).0 != record_id,
        },
{
    let mut i: usize = 0;
    while i < records.len()
        invariant
            i <= records.len(),
            forall|j: int| 0 <= j < i ==> (#[trigger] records@[j]).0 != record_id,
        decreases records.len() - i,
    {
        if records[i].0 == record_id {
            return Some(i);
        }
        i = i + 1;
    }
    None
}

impl InMemoryTableHandle {
    #[verifier::type_invariant]
    spec fn inv(self) -> bool {
        self@.wf()
    }

    /// All rows, in the order of their keys.
    pub fn select(&self) -> (cursor: Cursor)
        ensures
            cursor@ == self@.rows(),
            self@.wf(),
    {
        proof {
            use_type_invariant(self);
        }
        let mut rows: Vec<(Key, Value)> = Vec::new();
        let mut i: usize = 0;
        while i < self.records.len()
            invariant
                i <= self.records.len(),
                pairs_view(rows@) == self@.rows().subrange(0, i as int),
            decreases self.records.len() - i,
        {
            let ghost before = pairs_view(rows@);
            rows.push((Binary::record_key(self.records[i].0), self.records[i].1.copy()));
            assert(pairs_view(rows@) =~= before.push(self@.rows()[i as int]));
            i = i + 1;
            assert(pairs_view(rows@) =~= self@.rows().subrange(0, i as int));
        }
        let cursor = Cursor { rows, position: 0 };
        assert(cursor@ =~= self@.rows());
        cursor
    }

    /// Stores each value under the next free record id, in order, as long
    /// as record ids are left, and says how many values were stored.
    pub fn insert(&mut self, data: Vec<Value>) -> (stored: usize)
        ensures
            final(self)@ == old(self)@.inserted(values_view(data@)),
            stored == old(self)@.accepted(data@.len()),
            final(self)@.wf(),
    {
        proof {
            use_type_invariant(&*self);
        }
        let first_id = self.record_ids;
        let mut records: Vec<(u64, Binary)> = Vec::new();
        std::mem::swap(&mut records, &mut self.records);
        let mut next_id = first_id;
        let mut stored: usize = 0;
        proof {
            assert forall|i: int| 0 <= i < records.len() implies (#[trigger] records@[i]).0
                == old(self)@.records[i].0 by {}
            assert(records_view(records@) =~= old(self)@.records + Seq::new(
                0,
                |i: int| ((first_id + i) as u64, values_view(data@)[i]),
            ));
        }
        while stored < data.len() && next_id < u64::MAX
            invariant
                stored <= data.len(),
                stored <= old(self)@.room(),
                first_id == old(self).record_ids,
                next_id == first_id + stored,
                forall|i: int| 0 <= i < records.len() ==> (#[trigger] records@[i]).0 < next_id,
                forall|i: int, j: int|
                    0 <= i < j < records.len() ==> (#[trigger] records@[i]).0 < (
                    #[trigger] records@[j]).0,
                records_view(records@) == old(self)@.records + Seq::new(
                    stored as nat,
                    |i: int| ((first_id + i) as u64, values_view(data@)[i]),
                ),
            decreases data.len() - stored,
        {
            let ghost before = records_view(records@);
            records.push((next_id, data[stored].copy()));
            next_id = next_id + 1;
            stored = stored + 1;
            proof {
                assert(records_view(records@) =~= before.push(
                    ((next_id - 1) as u64, values_view(data@)[stored - 1]),
                ));
                assert(records_view(records@) =~= old(self)@.records + Seq::new(
                    stored as nat,
                    |i: int| ((first_id + i) as u64, values_view(data@)[i]),
                ));
            }
        }
        self.record_ids = next_id;
        self.records = records;
        assert(self@.records =~= old(self)@.inserted(values_view(data@)).records);
        stored
    }

    /// Replaces the value of each pair's key where a record is stored under
    /// it, pair by pair, and says how many pairs found their record.
    pub fn update(&mut self, data: Vec<(Key, Value)>) -> (updated: usize)
        ensures
            final(self)@ == old(self)@.updated(pairs_view(data@)),
            updated == old(self)@.hits(pairs_view(data@)),
            (forall|i: int| 0 <= i < data@.len() ==> old(self)@.has_key(#[trigger] data@[i].0@))
                ==> updated == data@.len(),
            final(self)@.wf(),
    {
        proof {
            use_type_invariant(&*self);
        }
        let ghost pairs = pairs_view(data@);
        let ghost start = self@;
        let mut records: Vec<(u64, Binary)> = Vec::new();
        std::mem::swap(&mut records, &mut self.records);
        let mut updated: usize = 0;
        let mut i: usize = 0;
        assert(pairs.take(0) =~= Seq::empty());
        while i < data.len()
            invariant
                i <= data.len(),
                updated <= i,
                pairs == pairs_view(data@),
                start.wf(),
                records_view(records@) == start.updated(pairs.take(i as int)).records,
                updated == start.hits(pairs.take(i as int)),
                (forall|j: int| 0 <= j < i ==> start.has_key(#[trigger] data@[j].0@)) ==> updated
                    == i,
            decreases data.len() - i,
        {
            let ghost before = start.updated(pairs.take(i as int));
            let ghost key = pairs[i as int].0;
            proof {
                crate::table_state::lemma_update_keeps_keys(start, pairs.take(i as int));
                assert(pairs.take(i + 1).drop_last() =~= pairs.take(i as int));
                assert(pairs.take(i + 1).last() == pairs[i as int]);
                assert(key == data@[i as int].0@);
            }
            let record_id = data[i].0.record_id();
            let found = match record_id {
                Some(record_id) => position_of(&records, record_id),
                None => None,
            };
            match found {
                Some(position) => {
                    let record_id = records[position].0;
                    assert(spec_key(record_id) == key);
                    records.set(position, (record_id, data[i].1.copy()));
                    updated = updated + 1;
                    proof {
                        assert(before.has_key(key)) by {
                            assert(spec_key(before.records[position as int].0) == key);
                        }
                        assert forall|k: int| 0 <= k < before.records.len() implies (
                        #[trigger] records_view(records@)[k]) == before.with_value(
                            key,
                            pairs[i as int].1,
                        ).records[k] by {
                            if spec_key(before.records[k].0) == key {
                                crate::binary::lemma_keys_injective(before.records[k].0, record_id);
                                if k < position {
                                    assert(before.records[k].0 < before.records[position as int].0);
                                } else if k > position {
                                    assert(before.records[position as int].0 < before.records[k].0);
                                }
                            }
                        }
                        assert(records_view(records@) =~= before.with_value(
                            key,
                            pairs[i as int].1,
                        ).records);
                    }
                },
                None => {
                    proof {
                        assert(!before.has_key(key)) by {
                            if before.has_key(key) {
                                let k = choose|k: int|
                                    0 <= k < before.records.len() && spec_key(
                                        (#[trigger] before.records[k]).0,
                                    ) == key;
                                assert(records@[k].0 == before.records[k].0);
                                if let Some(id) = record_id {
                                    crate::binary::lemma_keys_injective(before.records[k].0, id);
                                }
                            }
                        }
                        assert(records_view(records@) =~= before.with_value(
                            key,
                            pairs[i as int].1,
                        ).records);
                    }
                },
            }
            i = i + 1;
        }
        proof {
            assert(pairs.take(i as int) =~= pairs);
            crate::table_state::lemma_update_keeps_keys(start, pairs);
        }
        self.records = records;
        updated
    }

    /// Removes each record whose key is listed and says how many it removed.
    pub fn delete(&mut self, data: Vec<Key>) -> (removed: usize)
        ensures
            final(self)@ == old(self)@.deleted(values_view(data@)),
            removed == old(self)@.records.len() - final(self)@.records.len(),
            final(self)@.wf(),
    {
        proof {
            use_type_invariant(&*self);
            crate::table_state::lemma_delete_keeps_order(old(self)@, values_view(data@));
        }
        let ghost keys = values_view(data@);
        let ghost pred = |r: (u64, Seq<u8>)| !keys.contains(spec_key(r.0));
        let ghost all = self@.records;
        let mut kept: Vec<(u64, Binary)> = Vec::new();
        let mut removed: usize = 0;
        let mut i: usize = 0;
        proof {
            reveal(Seq::filter);
            assert(all.take(0) =~= Seq::empty());
        }
        while i < self.records.len()
            invariant
                i <= self.records.len(),
                self@ == old(self)@,
                all == self@.records,
                keys == values_view(data@),
                pred == (|r: (u64, Seq<u8>)| !keys.contains(spec_key(r.0))),
                records_view(kept@) == all.take(i as int).filter(pred),
                removed + kept.len() == i,
            decreases self.records.len() - i,
        {
            proof {
                reveal(Seq::filter);
                assert(all.take(i + 1).drop_last() =~= all.take(i as int));
                assert(all.take(i + 1).last() == all[i as int]);
            }
            if lists_key_of(&data, self.records[i].0) {
                removed = removed + 1;
            } else {
                let ghost before = records_view(kept@);
                kept.push((self.records[i].0, self.records[i].1.copy()));
                assert(records_view(kept@) =~= before.push(all[i as int]));
            }
            i = i + 1;
        }
        assert(all.take(i as int) =~= all);
        self.records = kept;
        removed
    }

    /// Hands out the next column ordinal.
    pub fn next_column_ord(&mut self) -> (ordinal: u64)
        requires
            old(self)@.next_column_ord < u64::MAX,
        ensures
            ordinal == old(self)@.next_column_ord,
            final(self)@ == old(self)@.with_column_added(),
    {
        proof {
            use_type_invariant(&*self);
            assert(self@.with_column_added().wf());
        }
        let ordinal = self.column_ords;
        self.column_ords = ordinal + 1;
        ordinal
    }
}

#[verifier::external_type_specification]
#[verifier::external_body]
#[verifier::reject_recursive_types(K)]
#[verifier::reject_recursive_types(V)]
#[verifier::reject_recursive_types(S)]
pub struct ExDashMap<K, V, S>(DashMap<K, V, S>);

/// The tables that a `DashMap` of tables holds, by name.
pub uninterp spec fn table_entries(map: DashMap<String, InMemoryTableHandle>) -> Map<
    Seq<char>,
    InMemoryTableHandle,
>;

/// The schemas that a `DashMap` of schemas holds, by name.
pub uninterp spec fn schema_entries(map: DashMap<String, InMemorySchemaHandle>) -> Map<
    Seq<char>,
    InMemorySchemaHandle,
>;

/// `DashMap::new`: a map that holds nothing.
#[verifier::external_body]
fn tables_new() -> (fresh: DashMap<String, InMemoryTableHandle>)
    ensures
        forall|name: Seq<char>| !table_entries(fresh).contains_key(name),
{
    DashMap::new()
}

/// `DashMap::contains_key`: whether the map holds an entry under the name.
#[verifier::external_body]
fn tables_contains(map: &DashMap<String, InMemoryTableHandle>, name: &str) -> (held: bool)
    ensures
        held == table_entries(*map).contains_key(name@),
{
    map.contains_key(name)
}

/// `DashMap::insert`: afterwards the map holds the table under the name,
/// in place of what it held there, and every other entry as before.
#[verifier::external_body]
fn tables_insert(
    map: &mut DashMap<String, InMemoryTableHandle>,
    name: String,
    table: InMemoryTableHandle,
)
    ensures
        table_entries(*final(map)) == table_entries(*old(map)).insert(name@, table),
{
    map.insert(name, table);
}

/// `DashMap::remove`: afterwards the map holds nothing under the name and
/// every other entry as before; the table that it held there is returned.
#[verifier::external_body]
fn tables_remove(map: &mut DashMap<String, InMemoryTableHandle>, name: &str) -> (removed: Option<
    InMemoryTableHandle,
>)
    ensures
        table_entries(*final(map)) == table_entries(*old(map)).remove(name@),
        removed == (if table_entries(*old(map)).contains_key(name@) {
            Some(table_entries(*old(map))[name@])
        } else {
            None
        }),
{
    map.remove(name).map(|entry| entry.1)
}

/// `DashMap::get`: where the map holds a table under the name, the
/// operation is applied to that table and its result returned; the map is
/// not changed.
#[verifier::external_body]
fn tables_get<T, F: Fn(&InMemoryTableHandle) -> T>(
    map: &DashMap<String, InMemoryTableHandle>,
    name: &str,
    operation: F,
) -> (result: Option<T>)
    requires
        table_entries(*map).contains_key(name@) ==> operation.requires(
            (&table_entries(*map)[name@],),
        ),
    ensures
        match result {
            Some(value) => table_entries(*map).contains_key(name@) && operation.ensures(
                (&table_entries(*map)[name@],),
                value,
            ),
            None => !table_entries(*map).contains_key(name@),
        },
{
    map.get(name).map(|table| operation(&*table))
}

/// `DashMap::new`: a map that holds nothing.
#[verifier::external_body]
fn schemas_new() -> (fresh: DashMap<String, InMemorySchemaHandle>)
    ensures
        forall|name: Seq<char>| !schema_entries(fresh).contains_key(name),
{
    DashMap::new()
}

/// `DashMap::contains_key`: whether the map holds an entry under the name.
#[verifier::external_body]
fn schemas_contains(map: &DashMap<String, InMemorySchemaHandle>, name: &str) -> (held: bool)
    ensures
        held == schema_entries(*map).contains_key(name@),
{
    map.contains_key(name)
}

/// `DashMap::insert`: afterwards the map holds the schema under the name,
/// in place of what it held there, and every other entry as before.
#[verifier::external_body]
fn schemas_insert(
    map: &mut DashMap<String, InMemorySchemaHandle>,
    name: String,
    schema: InMemorySchemaHandle,
)
    ensures
        schema_entries(*final(map)) == schema_entries(*old(map)).insert(name@, schema),
{
    map.insert(name, schema);
}

/// `DashMap::remove`: afterwards the map holds nothing under the name and
/// every other entry as before; the schema that it held there is returned.
#[verifier::external_body]
fn schemas_remove(map: &mut DashMap<String, InMemorySchemaHandle>, name: &str) -> (removed:
    Option<InMemorySchemaHandle>)
    ensures
        schema_entries(*final(map)) == schema_entries(*old(map)).remove(name@),
        removed == (if schema_entries(*old(map)).contains_key(name@) {
            Some(schema_entries(*old(map))[name@])
        } else {
            None
        }),
{
    map.remove(name).map(|entry| entry.1)
}

/// `DashMap::get`: where the map holds a schema under the name, the
/// operation is applied to that schema and its result returned; the map is
/// not changed.
#[verifier::external_body]
fn schemas_get<T, F: Fn(&InMemorySchemaHandle) -> T>(
    map: &DashMap<String, InMemorySchemaHandle>,
    name: &str,
    operation: F,
) -> (result: Option<T>)
    requires
        schema_entries(*map).contains_key(name@) ==> operation.requires(
            (&schema_entries(*map)[name@],),
        ),
    ensures
        match result {
            Some(value) => schema_entries(*map).contains_key(name@) && operation.ensures(
                (&schema_entries(*map)[name@],),
                value,
            ),
            None => !schema_entries(*map).contains_key(name@),
        },
{
    map.get(name).map(|schema| operation(&*schema))
}

/// The tables of a schema as values, by name.
pub type SchemaState = Map<Seq<char>, TableState>;

/// The schemas of a catalog as values, by name.
pub type CatalogState = Map<Seq<char>, SchemaState>;

/// A schema in memory: its tables by name.
#[derive(Debug)]
pub struct InMemorySchemaHandle {
    tables: DashMap<String, InMemoryTableHandle>,
}

impl View for InMemorySchemaHandle {
    type V = SchemaState;

    closed spec fn view(&self) -> SchemaState {
        table_entries(self.tables).map_values(|table: InMemoryTableHandle| table@)
    }
}

impl Default for InMemorySchemaHandle {
    fn default() -> (schema: InMemorySchemaHandle)
        ensures
            schema@ == Map::<Seq<char>, TableState>::empty(),
    {
        let schema = InMemorySchemaHandle { tables: tables_new() };
        assert(schema@ =~= Map::<Seq<char>, TableState>::empty());
        schema
    }
}

impl InMemorySchemaHandle {
    /// The table under the name as the schema holds it.
    pub closed spec fn table(&self, table_name: Seq<char>) -> InMemoryTableHandle {
        table_entries(self.tables)[table_name]
    }

    /// The schema's view is made of the views of its tables.
    pub proof fn lemma_view_of_table(&self, table_name: Seq<char>)
        requires
            self@.contains_key(table_name),
        ensures
            self.table(table_name)@ == self@[table_name],
    {
    }

    /// Adds an empty table under the name, unless the schema has one there.
    pub fn create_table(&mut self, table_name: &str) -> (created: bool)
        ensures
            created == !old(self)@.contains_key(table_name@),
            final(self)@ == (if created {
                old(self)@.insert(table_name@, TableState::empty())
            } else {
                old(self)@
            }),
    {
        if tables_contains(&self.tables, table_name) {
            false
        } else {
            tables_insert(&mut self.tables, table_name.to_owned(), InMemoryTableHandle::default());
            assert(self@ =~= old(self)@.insert(table_name@, TableState::empty()));
            true
        }
    }

    /// Removes the table under the name with all its rows, if there is one.
    pub fn drop_table(&mut self, table_name: &str) -> (dropped: bool)
        ensures
            dropped == old(self)@.contains_key(table_name@),
            final(self)@ == old(self)@.remove(table_name@),
    {
        if !tables_contains(&self.tables, table_name) {
            assert(self@ =~= old(self)@.remove(table_name@));
            false
        } else {
            let _ = tables_remove(&mut self.tables, table_name);
            assert(self@ =~= old(self)@.remove(table_name@));
            true
        }
    }

    /// Applies the operation to the table under the name, if there is one.
    pub fn work_with<T, F: Fn(&InMemoryTableHandle) -> T>(
        &self,
        table_name: &str,
        operation: F,
    ) -> (result: Option<T>)
        requires
            self@.contains_key(table_name@) ==> operation.requires((&self.table(table_name@),)),
        ensures
            match result {
                Some(value) => self@.contains_key(table_name@) && operation.ensures(
                    (&self.table(table_name@),),
                    value,
                ),
                None => !self@.contains_key(table_name@),
            },
    {
        tables_get(&self.tables, table_name, operation)
    }

    /// The rows of the table under the name, if there is one.
    pub fn select(&self, table_name: &str) -> (cursor: Option<Cursor>)
        ensures
            match cursor {
                Some(cursor) => self@.contains_key(table_name@) && cursor@
                    == self@[table_name@].rows() && self@[table_name@].wf(),
                None => !self@.contains_key(table_name@),
            },
    {
        let scan = |table: &InMemoryTableHandle| -> (cursor: Cursor)
            ensures
                cursor@ == table@.rows(),
                table@.wf(),
            { table.select() };
        self.work_with(table_name, scan)
    }

    /// Inserts into the table under the name, if there is one.
    pub fn insert(&mut self, table_name: &str, data: Vec<Value>) -> (stored: Option<usize>)
        ensures
            match stored {
                Some(stored) => {
                    &&& old(self)@.contains_key(table_name@)
                    &&& stored == old(self)@[table_name@].accepted(data@.len())
                    &&& final(self)@ == old(self)@.insert(
                        table_name@,
                        old(self)@[table_name@].inserted(values_view(data@)),
                    )
                },
                None => !old(self)@.contains_key(table_name@) && final(self)@ == old(self)@,
            },
    {
        match tables_remove(&mut self.tables, table_name) {
            Some(table) => {
                let mut table = table;
                let stored = table.insert(data);
                tables_insert(&mut self.tables, table_name.to_owned(), table);
                assert(self@ =~= old(self)@.insert(
                    table_name@,
                    old(self)@[table_name@].inserted(values_view(data@)),
                ));
                Some(stored)
            },
            None => {
                assert(self@ =~= old(self)@);
                None
            },
        }
    }

    /// Updates the table under the name, if there is one.
    pub fn update(&mut self, table_name: &str, data: Vec<(Key, Value)>) -> (updated: Option<usize>)
        ensures
            match updated {
                Some(updated) => {
                    &&& old(self)@.contains_key(table_name@)
                    &&& updated == old(self)@[table_name@].hits(pairs_view(data@))
                    &&& final(self)@ == old(self)@.insert(
                        table_name@,
                        old(self)@[table_name@].updated(pairs_view(data@)),
                    )
                },
                None => !old(self)@.contains_key(table_name@) && final(self)@ == old(self)@,
            },
    {
        match tables_remove(&mut self.tables, table_name) {
            Some(table) => {
                let mut table = table;
                let updated = table.update(data);
                tables_insert(&mut self.tables, table_name.to_owned(), table);
                assert(self@ =~= old(self)@.insert(
                    table_name@,
                    old(self)@[table_name@].updated(pairs_view(data@)),
                ));
                Some(updated)
            },
            None => {
                assert(self@ =~= old(self)@);
                None
            },
        }
    }

    /// Deletes from the table under the name, if there is one.
    pub fn delete(&mut self, table_name: &str, data: Vec<Key>) -> (removed: Option<usize>)
        ensures
            match removed {
                Some(removed) => {
                    &&& old(self)@.contains_key(table_name@)
                    &&& removed == old(self)@[table_name@].records.len() - old(
                        self,
                    )@[table_name@].deleted(values_view(data@)).records.len()
                    &&& final(self)@ == old(self)@.insert(
                        table_name@,
                        old(self)@[table_name@].deleted(values_view(data@)),
                    )
                },
                None => !old(self)@.contains_key(table_name@) && final(self)@ == old(self)@,
            },
    {
        match tables_remove(&mut self.tables, table_name) {
            Some(table) => {
                let mut table = table;
                let removed = table.delete(data);
                tables_insert(&mut self.tables, table_name.to_owned(), table);
                assert(self@ =~= old(self)@.insert(
                    table_name@,
                    old(self)@[table_name@].deleted(values_view(data@)),
                ));
                Some(removed)
            },
            None => {
                assert(self@ =~= old(self)@);
                None
            },
        }
    }
}

/// The catalog after `create_schema`: with an empty schema under the name,
/// unless it had one there.
pub open spec fn schema_created(catalog: CatalogState, schema_name: Seq<char>) -> CatalogState {
    if catalog.contains_key(schema_name) {
        catalog
    } else {
        catalog.insert(schema_name, Map::empty())
    }
}

/// The catalog after `drop_schema`: without the schema and all its tables.
pub open spec fn schema_dropped(catalog: CatalogState, schema_name: Seq<char>) -> CatalogState {
    catalog.remove(schema_name)
}

/// The catalog with one of its tables replaced.
pub open spec fn with_table(
    catalog: CatalogState,
    schema_name: Seq<char>,
    table_name: Seq<char>,
    table: TableState,
) -> CatalogState {
    catalog.insert(schema_name, catalog[schema_name].insert(table_name, table))
}

/// Whether the catalog has the table.
pub open spec fn has_table(
    catalog: CatalogState,
    schema_name: Seq<char>,
    table_name: Seq<char>,
) -> bool {
    catalog.contains_key(schema_name) && catalog[schema_name].contains_key(table_name)
}

/// Creating a schema, dropping it and creating it again leaves an empty
/// schema under the name, whatever tables it had in between, and every
/// other schema as it was.
pub proof fn lemma_schema_recreated_is_empty(
    catalog: CatalogState,
    schema_name: Seq<char>,
    between: CatalogState,
)
    requires
        between.remove(schema_name) == schema_created(catalog, schema_name).remove(schema_name),
    ensures
        schema_created(schema_dropped(between, schema_name), schema_name).contains_key(schema_name),
        schema_created(schema_dropped(between, schema_name), schema_name)[schema_name]
            == Map::<Seq<char>, TableState>::empty(),
        forall|other: Seq<char>|
            other != schema_name ==> (#[trigger] schema_created(
                schema_dropped(between, schema_name),
                schema_name,
            ).contains_key(other) == catalog.contains_key(other)),
        forall|other: Seq<char>|
            other != schema_name && catalog.contains_key(other) ==> #[trigger] schema_created(
                schema_dropped(between, schema_name),
                schema_name,
            )[other] == catalog[other],
{
    let dropped = schema_dropped(between, schema_name);
    let again = schema_created(dropped, schema_name);
    assert forall|other: Seq<char>| other != schema_name implies (#[trigger] again.contains_key(
        other,
    ) == catalog.contains_key(other)) by {
        assert(between.remove(schema_name).contains_key(other) == schema_created(
            catalog,
            schema_name,
        ).remove(schema_name).contains_key(other));
    }
    assert forall|other: Seq<char>|
        other != schema_name && catalog.contains_key(other) implies #[trigger] again[other]
        == catalog[other] by {
        assert(between.remove(schema_name)[other] == schema_created(catalog, schema_name).remove(
            schema_name,
        )[other]);
    }
}

/// The catalog in memory: its schemas by name.
#[derive(Debug)]
pub struct InMemoryCatalogHandle {
    schemas: DashMap<String, InMemorySchemaHandle>,
}

impl View for InMemoryCatalogHandle {
    type V = CatalogState;

    closed spec fn view(&self) -> CatalogState {
        schema_entries(self.schemas).map_values(|schema: InMemorySchemaHandle| schema@)
    }
}

impl Default for InMemoryCatalogHandle {
    fn default() -> (catalog: InMemoryCatalogHandle)
        ensures
            catalog@ == Map::<Seq<char>, SchemaState>::empty(),
    {
        let catalog = InMemoryCatalogHandle { schemas: schemas_new() };
        assert(catalog@ =~= Map::<Seq<char>, SchemaState>::empty());
        catalog
    }
}

impl InMemoryCatalogHandle {
    /// The schema under the name as the catalog holds it.
    pub closed spec fn schema(&self, schema_name: Seq<char>) -> InMemorySchemaHandle {
        schema_entries(self.schemas)[schema_name]
    }

    /// The catalog's view is made of the views of its schemas.
    pub proof fn lemma_view_of_schema(&self, schema_name: Seq<char>)
        requires
            self@.contains_key(schema_name),
        ensures
            self.schema(schema_name)@ == self@[schema_name],
    {
    }

    /// Adds an empty schema under the name, unless the catalog has one there.
    pub fn create_schema(&mut self, schema_name: &str) -> (created: bool)
        ensures
            created == !old(self)@.contains_key(schema_name@),
            final(self)@ == schema_created(old(self)@, schema_name@),
    {
        if schemas_contains(&self.schemas, schema_name) {
            false
        } else {
            schemas_insert(
                &mut self.schemas,
                schema_name.to_owned(),
                InMemorySchemaHandle::default(),
            );
            assert(self@ =~= schema_created(old(self)@, schema_name@));
            true
        }
    }

    /// Removes the schema under the name with all its tables, if there is one.
    pub fn drop_schema(&mut self, schema_name: &str) -> (dropped: bool)
        ensures
            dropped == old(self)@.contains_key(schema_name@),
            final(self)@ == schema_dropped(old(self)@, schema_name@),
    {
        if !schemas_contains(&self.schemas, schema_name) {
            assert(self@ =~= schema_dropped(old(self)@, schema_name@));
            false
        } else {
            let _ = schemas_remove(&mut self.schemas, schema_name);
            assert(self@ =~= schema_dropped(old(self)@, schema_name@));
            true
        }
    }

    /// Applies the operation to the schema under the name, if there is one.
    pub fn work_with<T, F: Fn(&InMemorySchemaHandle) -> T>(
        &self,
        schema_name: &str,
        operation: F,
    ) -> (result: Option<T>)
        requires
            self@.contains_key(schema_name@) ==> operation.requires(
                (&self.schema(schema_name@),),
            ),
        ensures
            match result {
                Some(value) => self@.contains_key(schema_name@) && operation.ensures(
                    (&self.schema(schema_name@),),
                    value,
                ),
                None => !self@.contains_key(schema_name@),
            },
    {
        schemas_get(&self.schemas, schema_name, operation)
    }

    /// Whether the catalog has a schema under the name.
    pub fn schema_exists(&self, schema_name: &str) -> (found: bool)
        ensures
            found == self@.contains_key(schema_name@),
    {
        schemas_contains(&self.schemas, schema_name)
    }

    /// Adds an empty table to the schema. No schema: nothing; a table of
    /// that name is there: `Some(false)`.
    pub fn create_table(&mut self, schema_name: &str, table_name: &str) -> (created: Option<bool>)
        ensures
            match created {
                Some(created) => {
                    &&& old(self)@.contains_key(schema_name@)
                    &&& created == !old(self)@[schema_name@].contains_key(table_name@)
                    &&& final(self)@ == (if created {
                        with_table(old(self)@, schema_name@, table_name@, TableState::empty())
                    } else {
                        old(self)@
                    })
                },
                None => !old(self)@.contains_key(schema_name@) && final(self)@ == old(self)@,
            },
    {
        match schemas_remove(&mut self.schemas, schema_name) {
            Some(schema) => {
                let mut schema = schema;
                let created = schema.create_table(table_name);
                schemas_insert(&mut self.schemas, schema_name.to_owned(), schema);
                proof {
                    if created {
                        assert(self@ =~= with_table(
                            old(self)@,
                            schema_name@,
                            table_name@,
                            TableState::empty(),
                        ));
                    } else {
                        assert(self@ =~= old(self)@);
                    }
                }
                Some(created)
            },
            None => {
                assert(self@ =~= old(self)@);
                None
            },
        }
    }

    /// Removes a table from the schema. No schema: nothing; no such table:
    /// `Some(false)`.
    pub fn drop_table(&mut self, schema_name: &str, table_name: &str) -> (dropped: Option<bool>)
        ensures
            match dropped {
                Some(dropped) => {
                    &&& old(self)@.contains_key(schema_name@)
                    &&& dropped == old(self)@[schema_name@].contains_key(table_name@)
                    &&& final(self)@ == old(self)@.insert(
                        schema_name@,
                        old(self)@[schema_name@].remove(table_name@),
                    )
                },
                None => !old(self)@.contains_key(schema_name@) && final(self)@ == old(self)@,
            },
    {
        match schemas_remove(&mut self.schemas, schema_name) {
            Some(schema) => {
                let mut schema = schema;
                let dropped = schema.drop_table(table_name);
                schemas_insert(&mut self.schemas, schema_name.to_owned(), schema);
                assert(self@ =~= old(self)@.insert(
                    schema_name@,
                    old(self)@[schema_name@].remove(table_name@),
                ));
                Some(dropped)
            },
            None => {
                assert(self@ =~= old(self)@);
                None
            },
        }
    }

    /// The rows of a table. No schema: nothing; no such table: `Some(None)`.
    pub fn select(&self, schema_name: &str, table_name: &str) -> (cursor: Option<Option<Cursor>>)
        ensures
            match cursor {
                Some(Some(cursor)) => has_table(self@, schema_name@, table_name@) && cursor@
                    == self@[schema_name@][table_name@].rows()
                    && self@[schema_name@][table_name@].wf(),
                Some(None) => self@.contains_key(schema_name@) && !self@[schema_name@].contains_key(
                    table_name@,
                ),
                None => !self@.contains_key(schema_name@),
            },
    {
        let scan = |schema: &InMemorySchemaHandle| -> (cursor: Option<Cursor>)
            ensures
                match cursor {
                    Some(cursor) => schema@.contains_key(table_name@) && cursor@
                        == schema@[table_name@].rows() && schema@[table_name@].wf(),
                    None => !schema@.contains_key(table_name@),
                },
            { schema.select(table_name) };
        self.work_with(schema_name, scan)
    }

    /// Inserts into a table. No schema: nothing; no such table:
    /// `Some(None)`; else the number of values stored.
    pub fn insert(&mut self, schema_name: &str, table_name: &str, data: Vec<Value>) -> (stored:
        Option<Option<usize>>)
        ensures
            match stored {
                Some(Some(stored)) => {
                    &&& has_table(old(self)@, schema_name@, table_name@)
                    &&& stored == old(self)@[schema_name@][table_name@].accepted(data@.len())
                    &&& final(self)@ == with_table(
                        old(self)@,
                        schema_name@,
                        table_name@,
                        old(self)@[schema_name@][table_name@].inserted(values_view(data@)),
                    )
                },
                Some(None) => old(self)@.contains_key(schema_name@) && !old(
                    self,
                )@[schema_name@].contains_key(table_name@) && final(self)@ == old(self)@,
                None => !old(self)@.contains_key(schema_name@) && final(self)@ == old(self)@,
            },
    {
        match schemas_remove(&mut self.schemas, schema_name) {
            Some(schema) => {
                let mut schema = schema;
                let stored = schema.insert(table_name, data);
                schemas_insert(&mut self.schemas, schema_name.to_owned(), schema);
                proof {
                    if stored is Some {
                        assert(self@ =~= with_table(
                            old(self)@,
                            schema_name@,
                            table_name@,
                            old(self)@[schema_name@][table_name@].inserted(values_view(data@)),
                        ));
                    } else {
                        assert(self@ =~= old(self)@);
                    }
                }
                Some(stored)
            },
            None => {
                assert(self@ =~= old(self)@);
                None
            },
        }
    }

    /// Updates a table. No schema: nothing; no such table: `Some(None)`;
    /// else the number of pairs that found their record.
    pub fn update(
        &mut self,
        schema_name: &str,
        table_name: &str,
        data: Vec<(Key, Value)>,
    ) -> (updated: Option<Option<usize>>)
        ensures
            match updated {
                Some(Some(updated)) => {
                    &&& has_table(old(self)@, schema_name@, table_name@)
                    &&& updated == old(self)@[schema_name@][table_name@].hits(pairs_view(data@))
                    &&& final(self)@ == with_table(
                        old(self)@,
                        schema_name@,
                        table_name@,
                        old(self)@[schema_name@][table_name@].updated(pairs_view(data@)),
                    )
                },
                Some(None) => old(self)@.contains_key(schema_name@) && !old(
                    self,
                )@[schema_name@].contains_key(table_name@) && final(self)@ == old(self)@,
                None => !old(self)@.contains_key(schema_name@) && final(self)@ == old(self)@,
            },
    {
        match schemas_remove(&mut self.schemas, schema_name) {
            Some(schema) => {
                let mut schema = schema;
                let updated = schema.update(table_name, data);
                schemas_insert(&mut self.schemas, schema_name.to_owned(), schema);
                proof {
                    if updated is Some {
                        assert(self@ =~= with_table(
                            old(self)@,
                            schema_name@,
                            table_name@,
                            old(self)@[schema_name@][table_name@].updated(pairs_view(data@)),
                        ));
                    } else {
                        assert(self@ =~= old(self)@);
                    }
                }
                Some(updated)
            },
            None => {
                assert(self@ =~= old(self)@);
                None
            },
        }
    }

    /// Deletes from a table. No schema: nothing; no such table:
    /// `Some(None)`; else the number of records removed.
    pub fn delete(&mut self, schema_name: &str, table_name: &str, data: Vec<Key>) -> (removed:
        Option<Option<usize>>)
        ensures
            match removed {
                Some(Some(removed)) => {
                    &&& has_table(old(self)@, schema_name@, table_name@)
                    &&& removed == old(self)@[schema_name@][table_name@].records.len() - old(
                        self,
                    )@[schema_name@][table_name@].deleted(values_view(data@)).records.len()
                    &&& final(self)@ == with_table(
                        old(self)@,
                        schema_name@,
                        table_name@,
                        old(self)@[schema_name@][table_name@].deleted(values_view(data@)),
                    )
                },
                Some(None) => old(self)@.contains_key(schema_name@) && !old(
                    self,
                )@[schema_name@].contains_key(table_name@) && final(self)@ == old(self)@,
                None => !old(self)@.contains_key(schema_name@) && final(self)@ == old(self)@,
            },
    {
        match schemas_remove(&mut self.schemas, schema_name) {
            Some(schema) => {
                let mut schema = schema;
                let removed = schema.delete(table_name, data);
                schemas_insert(&mut self.schemas, schema_name.to_owned(), schema);
                proof {
                    if removed is Some {
                        assert(self@ =~= with_table(
                            old(self)@,
                            schema_name@,
                            table_name@,
                            old(self)@[schema_name@][table_name@].deleted(values_view(data@)),
                        ));
                    } else {
                        assert(self@ =~= old(self)@);
                    }
                }
                Some(removed)
            },
            None => {
                assert(self@ =~= old(self)@);
                None
            },
        }
    }
}

} // verus!
