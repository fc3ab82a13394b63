//! Definitions and rows together: tables are created, dropped, written and
//! scanned by their handles.

use crate::binary::Binary;
use crate::in_memory::{
    has_table, pairs_view, schema_created, schema_dropped, values_view, with_table, CatalogState,
    Cursor, InMemoryCatalogHandle, Key, Value,
};
use crate::metadata::{
    ColumnDefinition, DataDefinition, Definitions, FullTableId, DEFAULT_CATALOG,
};
use crate::table_state::TableState;
use vstd::prelude::*;

verus! {

/// Definitions and rows as a value.
pub struct DataState {
    pub definitions: Definitions,
    pub storage: CatalogState,
}

impl DataState {
    /// The names under which the rows of a table are stored, where the
    /// definitions have the table and the storage has its rows.
    pub open spec fn stored_under(self, table_id: FullTableId) -> Option<(Seq<char>, Seq<char>)> {
        match self.definitions.table_names(table_id) {
            Some((schema_name, table_name)) => if has_table(
                self.storage,
                schema_name,
                table_name,
            ) {
                Some((schema_name, table_name))
            } else {
                None
            },
            None => None,
        }
    }

    /// The table of the handle.
    pub open spec fn table(self, table_id: FullTableId) -> Option<TableState> {
        match self.stored_under(table_id) {
            Some((schema_name, table_name)) => Some(self.storage[schema_name][table_name]),
            None => None,
        }
    }

    /// Whether a schema of the name can be created: the default catalog,
    /// once it is there, has no such schema.
    pub open spec fn can_create_schema(self, schema_name: Seq<char>) -> bool {
        self.definitions.catalog_created(DEFAULT_CATALOG@).schema_found(
            DEFAULT_CATALOG@,
            schema_name,
        ) matches Some((_, None))
    }

    /// The state after `create_schema`.
    pub open spec fn schema_created(self, schema_name: Seq<char>) -> DataState {
        DataState {
            definitions: self.definitions.catalog_created(DEFAULT_CATALOG@).schema_created(
                DEFAULT_CATALOG@,
                schema_name,
            ),
            storage: if self.can_create_schema(schema_name) {
                schema_created(self.storage, schema_name)
            } else {
                self.storage
            },
        }
    }

    /// Whether the default catalog has a schema of the name.
    pub open spec fn has_schema(self, schema_name: Seq<char>) -> bool {
        self.definitions.schema_found(DEFAULT_CATALOG@, schema_name) matches Some((_, Some(_)))
    }

    /// The state after `drop_schema`.
    pub open spec fn schema_dropped(self, schema_name: Seq<char>) -> DataState {
        DataState {
            definitions: self.definitions.schema_dropped(DEFAULT_CATALOG@, schema_name),
            storage: if self.has_schema(schema_name) {
                schema_dropped(self.storage, schema_name)
            } else {
                self.storage
            },
        }
    }

    /// Whether a table of the name can be created in the schema: the
    /// default catalog has the schema, and the schema has no such table.
    pub open spec fn can_create_table(self, schema_name: Seq<char>, table_name: Seq<char>) -> bool {
        self.definitions.table_found(DEFAULT_CATALOG@, schema_name, table_name) matches Some(
            (_, Some((_, None))),
        )
    }

    /// The state after `create_table`.
    pub open spec fn table_created(
        self,
        schema_name: Seq<char>,
        table_name: Seq<char>,
        columns: Seq<ColumnDefinition>,
    ) -> DataState {
        DataState {
            definitions: self.definitions.table_created(
                DEFAULT_CATALOG@,
                schema_name,
                table_name,
                columns,
            ),
            storage: if self.can_create_table(schema_name, table_name)
                && self.storage.contains_key(schema_name)
                && !self.storage[schema_name].contains_key(table_name) {
                with_table(self.storage, schema_name, table_name, TableState::empty())
            } else {
                self.storage
            },
        }
    }

    /// The state after `drop_table`.
    pub open spec fn table_dropped(self, table_id: FullTableId) -> DataState {
        match self.stored_under(table_id) {
            Some((schema_name, table_name)) => DataState {
                definitions: self.definitions.table_dropped(
                    DEFAULT_CATALOG@,
                    schema_name,
                    table_name,
                ),
                storage: self.storage.insert(
                    schema_name,
                    self.storage[schema_name].remove(table_name),
                ),
            },
            None => self,
        }
    }

    /// The state with the rows of the table replaced.
    pub open spec fn with_rows(self, table_id: FullTableId, table: TableState) -> DataState {
        match self.stored_under(table_id) {
            Some((schema_name, table_name)) => DataState {
                definitions: self.definitions,
                storage: with_table(self.storage, schema_name, table_name, table),
            },
            None => self,
        }
    }
}

/// Definitions and rows.
#[derive(Debug)]
pub struct DataManager {
    definitions: DataDefinition,
    storage: InMemoryCatalogHandle,
}

impl View for DataManager {
    type V = DataState;

    closed spec fn view(&self) -> DataState {
        DataState { definitions: self.definitions@, storage: self.storage@ }
    }
}

impl DataManager {
    /// A data manager with the default catalog and nothing else.
    pub fn in_memory() -> (data_manager: DataManager)
        ensures
            data_manager@.definitions == Definitions::empty().catalog_created(DEFAULT_CATALOG@),
            data_manager@.storage == Map::<Seq<char>, crate::in_memory::SchemaState>::empty(),
    {
        let mut definitions = DataDefinition::in_memory();
        let _ = definitions.create_catalog(DEFAULT_CATALOG);
        DataManager { definitions, storage: InMemoryCatalogHandle::default() }
    }

    /// The definitions, to resolve names against.
    pub fn definitions(&self) -> (definitions: &DataDefinition)
        ensures
            definitions@ == self@.definitions,
    {
        &self.definitions
    }

    /// Whether a schema and a table can still be created.
    pub fn has_room(&self) -> (room: bool)
        ensures
            room == (self@.definitions.catalogs.next_id < u64::MAX
                && self@.definitions.schemata.next_id < u64::MAX
                && self@.definitions.tables.next_id < u64::MAX),
    {
        self.definitions.has_room()
    }

    /// Creates a schema in the default catalog, which is created too where
    /// it is missing, and says which id the schema got; nothing where there
    /// is such a schema.
    pub fn create_schema(&mut self, schema_name: &str) -> (created: Option<u64>)
        requires
            old(self)@.definitions.catalogs.next_id < u64::MAX,
            old(self)@.definitions.schemata.next_id < u64::MAX,
        ensures
            created == (if old(self)@.can_create_schema(schema_name@) {
                Some(old(self)@.definitions.schemata.next_id)
            } else {
                None
            }),
            final(self)@ == old(self)@.schema_created(schema_name@),
            final(self)@.has_schema(schema_name@),
            final(self)@.definitions.wf(),
    {
        self.definitions.check();
        proof {
            let with_catalog = old(self)@.definitions.catalog_created(DEFAULT_CATALOG@);
            if old(self)@.definitions.catalogs.find(0, DEFAULT_CATALOG@) is None {
                crate::name_index::lemma_added(old(self)@.definitions.catalogs, 0, DEFAULT_CATALOG@);
            }
            if with_catalog.schema_found(DEFAULT_CATALOG@, schema_name@) matches Some((_, None)) {
                crate::metadata::lemma_created_schema_is_found(
                    with_catalog,
                    DEFAULT_CATALOG@,
                    schema_name@,
                );
            }
        }
        let _ = self.definitions.create_catalog(DEFAULT_CATALOG);
        match self.definitions.create_schema(DEFAULT_CATALOG, schema_name) {
            Some((_, Some(schema_id))) => {
                let _ = self.storage.create_schema(schema_name);
                Some(schema_id)
            },
            _ => None,
        }
    }

    /// The name of the schema of the id, if there is one.
    pub fn schema_name(&self, schema_id: u64) -> (name: Option<String>)
        ensures
            match name {
                Some(name) => self@.definitions.schemata.record(schema_id) matches Some(schema)
                    && schema.name == name@,
                None => self@.definitions.schemata.record(schema_id) is None,
            },
    {
        self.definitions.schema_name(schema_id)
    }

    /// Drops a schema of the default catalog with its tables and their
    /// rows, and says which id it had; nothing where there is no such schema.
    pub fn drop_schema(&mut self, schema_name: &str) -> (dropped: Option<u64>)
        ensures
            dropped is Some <==> old(self)@.has_schema(schema_name@),
            dropped is Some ==> old(self)@.definitions.schema_found(
                DEFAULT_CATALOG@,
                schema_name@,
            ).unwrap().1 == dropped,
            final(self)@ == old(self)@.schema_dropped(schema_name@),
    {
        match self.definitions.drop_schema(DEFAULT_CATALOG, schema_name) {
            Some((_, Some(schema_id))) => {
                let _ = self.storage.drop_schema(schema_name);
                Some(schema_id)
            },
            _ => None,
        }
    }

    /// Creates a table in a schema of the default catalog and says which
    /// handle it got; nothing where there is no such schema or the schema
    /// has such a table.
    pub fn create_table(
        &mut self,
        schema_name: &str,
        table_name: &str,
        column_definitions: &[ColumnDefinition],
    ) -> (created: Option<FullTableId>)
        requires
            old(self)@.definitions.tables.next_id < u64::MAX,
        ensures
            created is Some <==> old(self)@.can_create_table(schema_name@, table_name@),
            created is Some ==> created == Some(
                (
                    old(self)@.definitions.schema_found(
                        DEFAULT_CATALOG@,
                        schema_name@,
                    ).unwrap().1.unwrap(),
                    old(self)@.definitions.tables.next_id,
                ),
            ),
            final(self)@ == old(self)@.table_created(
                schema_name@,
                table_name@,
                column_definitions@,
            ),
    {
        match self.definitions.create_table(
            DEFAULT_CATALOG,
            schema_name,
            table_name,
            column_definitions,
        ) {
            Some((_, Some((schema_id, Some(table_id))))) => {
                let _ = self.storage.create_table(schema_name, table_name);
                Some((schema_id, table_id))
            },
            _ => None,
        }
    }

    /// Drops the table of the handle with its rows, where the definitions
    /// have it and the storage has its rows.
    pub fn drop_table(&mut self, table_id: &FullTableId) -> (dropped: Result<(), ()>)
        ensures
            dropped is Ok <==> old(self)@.stored_under(*table_id) is Some,
            final(self)@ == old(self)@.table_dropped(*table_id),
    {
        let (schema_name, table_name) = match self.definitions.table_name(table_id) {
            Some(names) => names,
            None => {
                return Err(());
            },
        };
        let stored = self.storage.select(schema_name.as_str(), table_name.as_str());
        match stored {
            Some(Some(_)) => {},
            _ => {
                return Err(());
            },
        }
        let _ = self.definitions.drop_table(
            DEFAULT_CATALOG,
            schema_name.as_str(),
            table_name.as_str(),
        );
        let _ = self.storage.drop_table(schema_name.as_str(), table_name.as_str());
        Ok(())
    }

    /// All rows of the table of the handle, in the order of their keys.
    pub fn full_scan(&self, table_id: &FullTableId) -> (rows: Result<Cursor, ()>)
        ensures
            match rows {
                Ok(cursor) => self@.table(*table_id) matches Some(table) && cursor@ == table.rows()
                    && table.wf(),
                Err(_) => self@.table(*table_id) is None,
            },
    {
        let (schema_name, table_name) = match self.definitions.table_name(table_id) {
            Some(names) => names,
            None => {
                return Err(());
            },
        };
        match self.storage.select(schema_name.as_str(), table_name.as_str()) {
            Some(Some(cursor)) => Ok(cursor),
            _ => Err(()),
        }
    }

    /// Stores the values as new rows of the table of the handle and says
    /// how many were stored.
    pub fn write_into(&mut self, table_id: &FullTableId, values: Vec<Value>) -> (stored: Result<
        usize,
        (),
    >)
        ensures
            match stored {
                Ok(stored) => old(self)@.table(*table_id) matches Some(table) && stored
                    == table.accepted(values@.len()) && final(self)@ == old(self)@.with_rows(
                    *table_id,
                    table.inserted(values_view(values@)),
                ),
                Err(_) => old(self)@.table(*table_id) is None && final(self)@ == old(self)@,
            },
    {
        let (schema_name, table_name) = match self.definitions.table_name(table_id) {
            Some(names) => names,
            None => {
                return Err(());
            },
        };
        match self.storage.insert(schema_name.as_str(), table_name.as_str(), values) {
            Some(Some(stored)) => Ok(stored),
            _ => Err(()),
        }
    }

    /// Replaces the values of the rows of the table of the handle whose
    /// keys are given, and says how many pairs found their row.
    pub fn update_in(&mut self, table_id: &FullTableId, pairs: Vec<(Key, Value)>) -> (updated:
        Result<usize, ()>)
        ensures
            match updated {
                Ok(updated) => old(self)@.table(*table_id) matches Some(table) && updated
                    == table.hits(pairs_view(pairs@)) && final(self)@ == old(self)@.with_rows(
                    *table_id,
                    table.updated(pairs_view(pairs@)),
                ),
                Err(_) => old(self)@.table(*table_id) is None && final(self)@ == old(self)@,
            },
    {
        let (schema_name, table_name) = match self.definitions.table_name(table_id) {
            Some(names) => names,
            None => {
                return Err(());
            },
        };
        match self.storage.update(schema_name.as_str(), table_name.as_str(), pairs) {
            Some(Some(updated)) => Ok(updated),
            _ => Err(()),
        }
    }

    /// Removes the rows of the table of the handle whose keys are listed
    /// and says how many it removed.
    pub fn delete_from(&mut self, table_id: &FullTableId, keys: Vec<Key>) -> (removed: Result<
        usize,
        (),
    >)
        ensures
            match removed {
                Ok(removed) => old(self)@.table(*table_id) matches Some(table) && removed
                    == table.records.len() - table.deleted(values_view(keys@)).records.len()
                    && final(self)@ == old(self)@.with_rows(
                    *table_id,
                    table.deleted(values_view(keys@)),
                ),
                Err(_) => old(self)@.table(*table_id) is None && final(self)@ == old(self)@,
            },
    {
        let (schema_name, table_name) = match self.definitions.table_name(table_id) {
            Some(names) => names,
            None => {
                return Err(());
            },
        };
        match self.storage.delete(schema_name.as_str(), table_name.as_str(), keys) {
            Some(Some(removed)) => Ok(removed),
            _ => Err(()),
        }
    }

    /// The definitions of the columns of a table at the ordinals, in the
    /// order of the ordinals; an ordinal that no column of the table has
    /// is passed over.
    pub fn column_defs(&self, table_id: &FullTableId, ordinals: &Vec<u64>) -> (columns: Vec<
        ColumnDefinition,
    >)
        ensures
            columns@ == crate::metadata::selected(
                self@.definitions.table_columns(table_id.1),
                ordinals@,
            ).map_values(|column: (u64, ColumnDefinition)| column.1),
    {
        self.definitions.column_defs(table_id, ordinals)
    }
}

} // verus!
