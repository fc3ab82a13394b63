//! The catalog of definitions: which catalogs, schemas, tables and columns
//! there are, under which names and with which ids.
//!
//! The definitions are kept as lists of records, as they are laid out in
//! the system tables: catalogs, schemata (schema id to catalog and name),
//! tables (table id to schema and name) and columns (table, ordinal, name
//! and type).

use crate::name_index::{lemma_added, lemma_filtered, IndexState, NameIndex, Named};
use crate::sql_types::SqlType;
use vstd::prelude::*;

verus! {

/// The catalog that statements name when they name none.
pub const DEFAULT_CATALOG: &'static str = "public";

/// A column: its name and its type.
#[derive(Debug, Clone, PartialEq, Eq)]
pub struct ColumnDefinition {
    pub name: String,
    pub sql_type: SqlType,
}

/// A column of a table, as the list of columns holds it.
#[derive(Debug, Clone, PartialEq, Eq)]
pub struct ColumnRecord {
    pub table_id: u64,
    pub ordinal: u64,
    pub name: String,
    pub sql_type: SqlType,
}

/// Which of the two names of a table was not found.
#[derive(Debug, Copy, Clone, PartialEq, Eq, Structural)]
pub enum NotFoundError {
    Schema,
    Object,
}

/// The handle of a table: the id of its schema and its own id.
pub type FullTableId = (u64, u64);

/// A table as the catalog describes it.
#[derive(Debug, Clone, PartialEq, Eq)]
pub struct TableDesc {
    pub schema_id: u64,
    pub table_id: u64,
    pub columns: Vec<ColumnDefinition>,
}

/// What the catalog says of a schema name: nothing where the catalog is
/// missing, else the catalog's id and, where there is such a schema, its id.
pub type SchemaFound = Option<(u64, Option<u64>)>;

/// What the catalog says of a table name: nothing where the catalog is
/// missing, else the catalog's id and, where there is such a schema, its
/// id and, where it has such a table, the table's id.
pub type TableFound = Option<(u64, Option<(u64, Option<u64>)>)>;

/// The definitions as a value.
pub struct Definitions {
    pub catalogs: IndexState,
    pub schemata: IndexState,
    pub tables: IndexState,
    pub columns: Seq<ColumnRecord>,
}

/// The column records of a new table: each definition with its ordinal.
pub open spec fn new_columns(table_id: u64, definitions: Seq<ColumnDefinition>) -> Seq<ColumnRecord> {
    Seq::new(
        definitions.len(),
        |i: int|
            ColumnRecord {
                table_id,
                ordinal: i as u64,
                name: definitions[i].name,
                sql_type: definitions[i].sql_type,
            },
    )
}

/// The ids of the tables of a schema.
pub open spec fn tables_of(tables: IndexState, schema_id: u64) -> Seq<u64> {
    tables.records.filter(|record: Named| record.owner_id == schema_id).map_values(
        |record: Named| record.id,
    )
}

impl Definitions {
    pub open spec fn empty() -> Definitions {
        Definitions {
            catalogs: IndexState::empty(),
            schemata: IndexState::empty(),
            tables: IndexState::empty(),
            columns: Seq::empty(),
        }
    }

    /// The three indexes are well formed and every column belongs to a
    /// table id that was handed out.
    pub open spec fn wf(self) -> bool {
        &&& self.catalogs.wf()
        &&& self.schemata.wf()
        &&& self.tables.wf()
        &&& forall|i: int|
            0 <= i < self.columns.len() ==> (#[trigger] self.columns[i]).table_id
                < self.tables.next_id
    }

    /// What the definitions say of a schema name.
    pub open spec fn schema_found(self, catalog: Seq<char>, schema: Seq<char>) -> SchemaFound {
        match self.catalogs.find(0, catalog) {
            None => None,
            Some(catalog_id) => Some((catalog_id, self.schemata.find(catalog_id, schema))),
        }
    }

    /// What the definitions say of a table name.
    pub open spec fn table_found(
        self,
        catalog: Seq<char>,
        schema: Seq<char>,
        table: Seq<char>,
    ) -> TableFound {
        match self.schema_found(catalog, schema) {
            None => None,
            Some((catalog_id, None)) => Some((catalog_id, None)),
            Some((catalog_id, Some(schema_id))) => Some(
                (catalog_id, Some((schema_id, self.tables.find(schema_id, table)))),
            ),
        }
    }

    /// The column records of a table, in the order of their ordinals.
    pub open spec fn column_records(self, table_id: u64) -> Seq<ColumnRecord> {
        self.columns.filter(|column: ColumnRecord| column.table_id == table_id)
    }

    /// The columns of a table, each with its ordinal.
    pub open spec fn table_columns(self, table_id: u64) -> Seq<(u64, ColumnDefinition)> {
        self.column_records(table_id).map_values(
            |column: ColumnRecord|
                (column.ordinal, ColumnDefinition { name: column.name, sql_type: column.sql_type }),
        )
    }

    /// The types of the columns of a table, in order.
    pub open spec fn column_types(self, table_id: u64) -> Seq<SqlType> {
        self.column_records(table_id).map_values(|column: ColumnRecord| column.sql_type)
    }

    /// The names of the schema and the table of a handle, where the
    /// definitions have such a table in such a schema.
    pub open spec fn table_names(self, table_id: FullTableId) -> Option<(Seq<char>, Seq<char>)> {
        match (self.schemata.record(table_id.0), self.tables.record(table_id.1)) {
            (Some(schema), Some(table)) => if table.owner_id == table_id.0 {
                Some((schema.name, table.name))
            } else {
                None
            },
            _ => None,
        }
    }

    /// The definitions after `create_catalog`.
    pub open spec fn catalog_created(self, catalog: Seq<char>) -> Definitions {
        if self.catalogs.find(0, catalog) is Some {
            self
        } else {
            Definitions { catalogs: self.catalogs.added(0, catalog), ..self }
        }
    }

    /// The definitions after `create_schema`.
    pub open spec fn schema_created(self, catalog: Seq<char>, schema: Seq<char>) -> Definitions {
        match self.schema_found(catalog, schema) {
            Some((catalog_id, None)) => Definitions {
                schemata: self.schemata.added(catalog_id, schema),
                ..self
            },
            _ => self,
        }
    }

    /// The definitions after `drop_schema`: without the schema, its tables
    /// and their columns.
    pub open spec fn schema_dropped(self, catalog: Seq<char>, schema: Seq<char>) -> Definitions {
        match self.schema_found(catalog, schema) {
            Some((catalog_id, Some(schema_id))) => Definitions {
                catalogs: self.catalogs,
                schemata: self.schemata.removed(schema_id),
                tables: self.tables.without_owner(schema_id),
                columns: self.columns.filter(
                    |column: ColumnRecord|
                        !tables_of(self.tables, schema_id).contains(column.table_id),
                ),
            },
            _ => self,
        }
    }

    /// The definitions after `create_table`.
    pub open spec fn table_created(
        self,
        catalog: Seq<char>,
        schema: Seq<char>,
        table: Seq<char>,
        columns: Seq<ColumnDefinition>,
    ) -> Definitions {
        match self.table_found(catalog, schema, table) {
            Some((catalog_id, Some((schema_id, None)))) => Definitions {
                catalogs: self.catalogs,
                schemata: self.schemata,
                tables: self.tables.added(schema_id, table),
                columns: self.columns + new_columns(self.tables.next_id, columns),
            },
            _ => self,
        }
    }

    /// The definitions after `drop_table`: without the table and its columns.
    pub open spec fn table_dropped(
        self,
        catalog: Seq<char>,
        schema: Seq<char>,
        table: Seq<char>,
    ) -> Definitions {
        match self.table_found(catalog, schema, table) {
            Some((catalog_id, Some((schema_id, Some(table_id))))) => Definitions {
                catalogs: self.catalogs,
                schemata: self.schemata,
                tables: self.tables.removed(table_id),
                columns: self.columns.filter(|column: ColumnRecord| column.table_id != table_id),
            },
            _ => self,
        }
    }
}

/// A schema that was created is found, under the id that was next; the
/// catalogs and tables are as before.
pub proof fn lemma_created_schema_is_found(
    definitions: Definitions,
    catalog: Seq<char>,
    schema: Seq<char>,
)
    requires
        definitions.wf(),
        definitions.schemata.next_id < u64::MAX,
        definitions.schema_found(catalog, schema) matches Some((_, None)),
    ensures
        definitions.schema_created(catalog, schema).wf(),
        definitions.schema_created(catalog, schema).schema_found(catalog, schema) == Some(
            (definitions.catalogs.find(0, catalog).unwrap(), Some(definitions.schemata.next_id)),
        ),
        definitions.schemata.record(definitions.schemata.next_id) is None,
{
    let catalog_id = definitions.catalogs.find(0, catalog).unwrap();
    lemma_added(definitions.schemata, catalog_id, schema);
}

/// A table that was created is found, under the id that was next, an id
/// that no table had, and it has the columns that it was created with,
/// numbered from zero.
pub proof fn lemma_created_table_is_found(
    definitions: Definitions,
    catalog: Seq<char>,
    schema: Seq<char>,
    table: Seq<char>,
    columns: Seq<ColumnDefinition>,
)
    requires
        definitions.wf(),
        definitions.tables.next_id < u64::MAX,
        columns.len() <= u64::MAX,
        definitions.table_found(catalog, schema, table) matches Some((_, Some((_, None)))),
    ensures
        definitions.table_created(catalog, schema, table, columns).wf(),
        definitions.table_created(catalog, schema, table, columns).table_found(
            catalog,
            schema,
            table,
        ) == Some(
            (
                definitions.catalogs.find(0, catalog).unwrap(),
                Some(
                    (
                        definitions.schema_found(catalog, schema).unwrap().1.unwrap(),
                        Some(definitions.tables.next_id),
                    ),
                ),
            ),
        ),
        definitions.tables.record(definitions.tables.next_id) is None,
        definitions.table_created(catalog, schema, table, columns).table_columns(
            definitions.tables.next_id,
        ) == Seq::new(columns.len(), |i: int| (i as u64, columns[i])),
{
    let schema_id = definitions.schema_found(catalog, schema).unwrap().1.unwrap();
    let table_id = definitions.tables.next_id;
    let after = definitions.table_created(catalog, schema, table, columns);
    lemma_added(definitions.tables, schema_id, table);
    let pred = |column: ColumnRecord| column.table_id == table_id;
    let fresh = new_columns(table_id, columns);
    Seq::filter_distributes_over_add(definitions.columns, fresh, pred);
    assert(definitions.columns.filter(pred) =~= Seq::<ColumnRecord>::empty()) by {
        let kept = definitions.columns.filter(pred);
        if kept.len() > 0 {
            definitions.columns.lemma_filter_pred(pred, 0);
            assert(kept.contains(kept[0]));
            definitions.columns.lemma_filter_contains_rev(pred, kept[0]);
            let k = choose|k: int|
                0 <= k < definitions.columns.len() && definitions.columns[k] == kept[0];
            assert(definitions.columns[k].table_id < table_id);
        }
    }
    lemma_filter_all(fresh, pred);
    assert(after.column_records(table_id) =~= fresh);
    assert(after.table_columns(table_id) =~= Seq::new(
        columns.len(),
        |i: int| (i as u64, columns[i]),
    ));
}

/// A filter keeps a sequence whose elements all pass.
pub proof fn lemma_filter_all<A>(s: Seq<A>, pred: spec_fn(A) -> bool)
    requires
        forall|i: int| 0 <= i < s.len() ==> pred(#[trigger] s[i]),
    ensures
        s.filter(pred) == s,
    decreases s.len(),
{
    reveal(Seq::filter);
    if s.len() > 0 {
        lemma_filter_all(s.drop_last(), pred);
        assert(s.drop_last().push(s.last()) =~= s);
    }
}

/// A table that was dropped is not found any more and has no columns; a
/// table of another name is found as before.
pub proof fn lemma_dropped_table_is_gone(
    definitions: Definitions,
    catalog: Seq<char>,
    schema: Seq<char>,
    table: Seq<char>,
)
    requires
        definitions.wf(),
        definitions.table_found(catalog, schema, table) matches Some((_, Some((_, Some(_))))),
    ensures
        definitions.table_dropped(catalog, schema, table).wf(),
        definitions.table_dropped(catalog, schema, table).table_found(catalog, schema, table)
            == Some(
            (
                definitions.catalogs.find(0, catalog).unwrap(),
                Some((definitions.schema_found(catalog, schema).unwrap().1.unwrap(), None::<u64>)),
            ),
        ),
        definitions.table_dropped(catalog, schema, table).column_records(
            definitions.table_found(catalog, schema, table).unwrap().1.unwrap().1.unwrap(),
        ) == Seq::<ColumnRecord>::empty(),
{
    let schema_id = definitions.schema_found(catalog, schema).unwrap().1.unwrap();
    let table_id = definitions.tables.find(schema_id, table).unwrap();
    let after = definitions.table_dropped(catalog, schema, table);
    let pred = |record: Named| record.id != table_id;
    lemma_filtered(definitions.tables, pred);
    let i = choose|i: int| definitions.tables.named_at(i, schema_id, table);
    assert(definitions.tables.named_at(i, schema_id, table));
    assert(after.tables.find(schema_id, table) is None) by {
        if exists|j: int|
            definitions.tables.named_at(j, schema_id, table) && pred(definitions.tables.records[j]) {
            let j = choose|j: int|
                definitions.tables.named_at(j, schema_id, table) && pred(
                    definitions.tables.records[j],
                );
            assert(i == j);
        }
    }
    let keep = |column: ColumnRecord| column.table_id != table_id;
    let of_table = |column: ColumnRecord| column.table_id == table_id;
    let kept = definitions.columns.filter(keep);
    assert forall|k: int| 0 <= k < kept.len() implies (#[trigger] kept[k]).table_id
        < definitions.tables.next_id by {
        assert(kept.contains(kept[k]));
        definitions.columns.lemma_filter_contains_rev(keep, kept[k]);
        let c = choose|c: int| 0 <= c < definitions.columns.len() && definitions.columns[c] == kept[k];
        assert(definitions.columns[c].table_id < definitions.tables.next_id);
    }
    assert(kept.filter(of_table) =~= Seq::<ColumnRecord>::empty()) by {
        let gone = kept.filter(of_table);
        if gone.len() > 0 {
            kept.lemma_filter_pred(of_table, 0);
            assert(gone.contains(gone[0]));
            kept.lemma_filter_contains_rev(of_table, gone[0]);
            let c = choose|c: int| 0 <= c < kept.len() && kept[c] == gone[0];
            definitions.columns.lemma_filter_pred(keep, c);
        }
    }
}

impl ColumnDefinition {
    pub fn new(name: &str, sql_type: SqlType) -> (column: ColumnDefinition)
        ensures
            column.name@ == name@,
            column.sql_type == sql_type,
    {
        ColumnDefinition { name: name.to_owned(), sql_type }
    }

    pub fn name(&self) -> (name: String)
        ensures
            name == self.name,
    {
        self.name.clone()
    }

    pub fn sql_type(&self) -> (sql_type: SqlType)
        ensures
            sql_type == self.sql_type,
    {
        self.sql_type
    }
}

impl TableDesc {
    pub fn full_table_id(&self) -> (id: FullTableId)
        ensures
            id == (self.schema_id, self.table_id),
    {
        (self.schema_id, self.table_id)
    }

    /// The types of the columns, in order.
    pub fn column_types(&self) -> (types: Vec<SqlType>)
        ensures
            types@ == self.columns@.map_values(|column: ColumnDefinition| column.sql_type),
    {
        let mut types: Vec<SqlType> = Vec::new();
        let mut i: usize = 0;
        while i < self.columns.len()
            invariant
                i <= self.columns.len(),
                types@ == self.columns@.take(i as int).map_values(
                    |column: ColumnDefinition| column.sql_type,
                ),
            decreases self.columns.len() - i,
        {
            types.push(self.columns[i].sql_type);
            i = i + 1;
            assert(types@ =~= self.columns@.take(i as int).map_values(
                |column: ColumnDefinition| column.sql_type,
            ));
        }
        assert(self.columns@.take(i as int) =~= self.columns@);
        types
    }
}

/// The catalog of definitions.
#[derive(Debug)]
pub struct DataDefinition {
    catalogs: NameIndex,
    schemata: NameIndex,
    tables: NameIndex,
    columns: Vec<ColumnRecord>,
}

impl View for DataDefinition {
    type V = Definitions;

    closed spec fn view(&self) -> Definitions {
        Definitions {
            catalogs: self.catalogs@,
            schemata: self.schemata@,
            tables: self.tables@,
            columns: self.columns@,
        }
    }
}

/// Whether the id is among the ids.
fn lists_id(ids: &Vec<u64>, id: u64) -> (listed: bool)
    ensures
        listed == ids@.contains(id),
{
    let mut i: usize = 0;
    while i < ids.len()
        invariant
            i <= ids.len(),
            forall|j: int| 0 <= j < i ==> ids@[j] != id,
        decreases ids.len() - i,
    {
        if ids[i] == id {
            return true;
        }
        i = i + 1;
    }
    false
}

impl DataDefinition {
    #[verifier::type_invariant]
    spec fn inv(self) -> bool {
        forall|i: int|
            0 <= i < self.columns@.len() ==> (#[trigger] self.columns@[i]).table_id
                < self.tables@.next_id
    }

    /// A catalog of definitions that holds nothing.
    pub fn in_memory() -> (definitions: DataDefinition)
        ensures
            definitions@ == Definitions::empty(),
    {
        DataDefinition {
            catalogs: NameIndex::new(),
            schemata: NameIndex::new(),
            tables: NameIndex::new(),
            columns: Vec::new(),
        }
    }

    /// The definitions are always well formed.
    pub fn check(&self)
        ensures
            self@.wf(),
    {
        proof {
            use_type_invariant(self);
        }
        self.catalogs.check();
        self.schemata.check();
        self.tables.check();
    }

    /// Whether a schema and a table can still be created: ids are left.
    pub fn has_room(&self) -> (room: bool)
        ensures
            room == (self@.catalogs.next_id < u64::MAX && self@.schemata.next_id < u64::MAX
                && self@.tables.next_id < u64::MAX),
    {
        self.catalogs.has_room() && self.schemata.has_room() && self.tables.has_room()
    }

    /// Adds a catalog of the name, unless there is one.
    pub fn create_catalog(&mut self, catalog_name: &str) -> (created: bool)
        requires
            old(self)@.catalogs.next_id < u64::MAX,
        ensures
            created == (old(self)@.catalogs.find(0, catalog_name@) is None),
            final(self)@ == old(self)@.catalog_created(catalog_name@),
            final(self)@.wf(),
    {
        self.check();
        let mut catalogs = NameIndex::new();
        std::mem::swap(&mut catalogs, &mut self.catalogs);
        let added = catalogs.add(0, catalog_name);
        self.catalogs = catalogs;
        added.is_some()
    }

    /// Says whether there is such a schema.
    pub fn schema_exists(&self, catalog_name: &str, schema_name: &str) -> (found: SchemaFound)
        ensures
            found == self@.schema_found(catalog_name@, schema_name@),
            self@.wf(),
    {
        self.check();
        match self.catalogs.find(0, catalog_name) {
            None => None,
            Some(catalog_id) => Some((catalog_id, self.schemata.find(catalog_id, schema_name))),
        }
    }

    /// Says whether there is such a table.
    pub fn table_exists(&self, catalog_name: &str, schema_name: &str, table_name: &str) -> (found:
        TableFound)
        ensures
            found == self@.table_found(catalog_name@, schema_name@, table_name@),
            self@.wf(),
    {
        match self.schema_exists(catalog_name, schema_name) {
            None => None,
            Some((catalog_id, None)) => Some((catalog_id, None)),
            Some((catalog_id, Some(schema_id))) => Some(
                (catalog_id, Some((schema_id, self.tables.find(schema_id, table_name)))),
            ),
        }
    }

    /// Adds a schema to the catalog. Nothing where the catalog is missing;
    /// no schema id where the catalog has a schema of the name.
    pub fn create_schema(&mut self, catalog_name: &str, schema_name: &str) -> (created: SchemaFound)
        requires
            old(self)@.schemata.next_id < u64::MAX,
        ensures
            created == (match old(self)@.schema_found(catalog_name@, schema_name@) {
                None => None,
                Some((catalog_id, Some(_))) => Some((catalog_id, None)),
                Some((catalog_id, None)) => Some((catalog_id, Some(old(self)@.schemata.next_id))),
            }),
            final(self)@ == old(self)@.schema_created(catalog_name@, schema_name@),
            final(self)@.wf(),
    {
        self.check();
        match self.catalogs.find(0, catalog_name) {
            None => None,
            Some(catalog_id) => {
                let mut schemata = NameIndex::new();
                std::mem::swap(&mut schemata, &mut self.schemata);
                let added = schemata.add(catalog_id, schema_name);
                self.schemata = schemata;
                Some((catalog_id, added))
            },
        }
    }

    /// Adds a table with its columns to the schema; the columns get the
    /// ordinals from zero on. Nothing where the catalog is missing, no
    /// schema id where the schema is missing, no table id where the schema
    /// has a table of the name.
    pub fn create_table(
        &mut self,
        catalog_name: &str,
        schema_name: &str,
        table_name: &str,
        column_definitions: &[ColumnDefinition],
    ) -> (created: TableFound)
        requires
            old(self)@.tables.next_id < u64::MAX,
        ensures
            created == (match old(self)@.table_found(catalog_name@, schema_name@, table_name@) {
                None => None,
                Some((catalog_id, None)) => Some((catalog_id, None)),
                Some((catalog_id, Some((schema_id, Some(_))))) => Some(
                    (catalog_id, Some((schema_id, None))),
                ),
                Some((catalog_id, Some((schema_id, None)))) => Some(
                    (catalog_id, Some((schema_id, Some(old(self)@.tables.next_id)))),
                ),
            }),
            final(self)@ == old(self)@.table_created(
                catalog_name@,
                schema_name@,
                table_name@,
                column_definitions@,
            ),
            final(self)@.wf(),
    {
        self.check();
        let (catalog_id, schema_id) = match self.schema_exists(catalog_name, schema_name) {
            None => {
                return None;
            },
            Some((catalog_id, None)) => {
                return Some((catalog_id, None));
            },
            Some((catalog_id, Some(schema_id))) => (catalog_id, schema_id),
        };
        proof {
            use_type_invariant(&*self);
        }
        let mut columns: Vec<ColumnRecord> = Vec::new();
        std::mem::swap(&mut columns, &mut self.columns);
        let mut tables = NameIndex::new();
        std::mem::swap(&mut tables, &mut self.tables);
        let added = tables.add(schema_id, table_name);
        self.tables = tables;
        let table_id = match added {
            None => {
                self.columns = columns;
                return Some((catalog_id, Some((schema_id, None))));
            },
            Some(table_id) => table_id,
        };
        let ghost before = columns@;
        let mut i: usize = 0;
        while i < column_definitions.len()
            invariant
                i <= column_definitions.len(),
                columns@ == before + new_columns(table_id, column_definitions@).take(i as int),
                forall|j: int|
                    0 <= j < before.len() ==> (#[trigger] before[j]).table_id < table_id,
            decreases column_definitions.len() - i,
        {
            columns.push(
                ColumnRecord {
                    table_id,
                    ordinal: i as u64,
                    name: column_definitions[i].name.clone(),
                    sql_type: column_definitions[i].sql_type,
                },
            );
            i = i + 1;
            assert(columns@ =~= before + new_columns(table_id, column_definitions@).take(i as int));
        }
        assert(new_columns(table_id, column_definitions@).take(i as int) =~= new_columns(
            table_id,
            column_definitions@,
        ));
        self.columns = columns;
        Some((catalog_id, Some((schema_id, Some(table_id)))))
    }

    /// Takes the columns out that belong to one of the tables.
    fn drop_columns(&mut self, table_ids: &Vec<u64>)
        ensures
            final(self)@.columns == old(self)@.columns.filter(
                |column: ColumnRecord| !table_ids@.contains(column.table_id),
            ),
            final(self)@.catalogs == old(self)@.catalogs,
            final(self)@.schemata == old(self)@.schemata,
            final(self)@.tables == old(self)@.tables,
    {
        proof {
            use_type_invariant(&*self);
        }
        let ghost pred = |column: ColumnRecord| !table_ids@.contains(column.table_id);
        let ghost all = self.columns@;
        let ghost limit = self.tables@.next_id;
        let mut kept: Vec<ColumnRecord> = Vec::new();
        let mut i: usize = 0;
        proof {
            reveal(Seq::filter);
            assert(all.take(0) =~= Seq::empty());
        }
        while i < self.columns.len()
            invariant
                i <= self.columns.len(),
                all == self.columns@,
                self@ == old(self)@,
                limit == self.tables@.next_id,
                pred == (|column: ColumnRecord| !table_ids@.contains(column.table_id)),
                kept@ == all.take(i as int).filter(pred),
                forall|j: int| 0 <= j < all.len() ==> (#[trigger] all[j]).table_id < limit,
                forall|j: int| 0 <= j < kept@.len() ==> (#[trigger] kept@[j]).table_id < limit,
            decreases self.columns.len() - i,
        {
            proof {
                reveal(Seq::filter);
                assert(all.take(i + 1).drop_last() =~= all.take(i as int));
            }
            if !lists_id(table_ids, self.columns[i].table_id) {
                kept.push(
                    ColumnRecord {
                        table_id: self.columns[i].table_id,
                        ordinal: self.columns[i].ordinal,
                        name: self.columns[i].name.clone(),
                        sql_type: self.columns[i].sql_type,
                    },
                );
            }
            i = i + 1;
        }
        assert(all.take(i as int) =~= all);
        self.columns = kept;
    }

    /// Removes a schema with its tables and their columns. Nothing where
    /// the catalog is missing; no schema id where there is no such schema.
    pub fn drop_schema(&mut self, catalog_name: &str, schema_name: &str) -> (dropped: SchemaFound)
        ensures
            dropped == old(self)@.schema_found(catalog_name@, schema_name@),
            final(self)@ == old(self)@.schema_dropped(catalog_name@, schema_name@),
            final(self)@.wf(),
    {
        self.check();
        let found = self.schema_exists(catalog_name, schema_name);
        match found {
            Some((catalog_id, Some(schema_id))) => {
                let table_ids = self.tables.ids_of_owner(schema_id);
                self.drop_columns(&table_ids);
                proof {
                    use_type_invariant(&*self);
                }
                let mut columns: Vec<ColumnRecord> = Vec::new();
                std::mem::swap(&mut columns, &mut self.columns);
                let mut tables = NameIndex::new();
                std::mem::swap(&mut tables, &mut self.tables);
                tables.remove_owner(schema_id);
                self.tables = tables;
                self.columns = columns;
                let mut schemata = NameIndex::new();
                std::mem::swap(&mut schemata, &mut self.schemata);
                schemata.remove(schema_id);
                self.schemata = schemata;
            },
            _ => {},
        }
        self.check();
        found
    }

    /// Removes a table with its columns. Nothing where the catalog is
    /// missing, no schema id where the schema is missing, no table id
    /// where the schema has no such table.
    pub fn drop_table(&mut self, catalog_name: &str, schema_name: &str, table_name: &str) -> (dropped:
        TableFound)
        ensures
            dropped == old(self)@.table_found(catalog_name@, schema_name@, table_name@),
            final(self)@ == old(self)@.table_dropped(catalog_name@, schema_name@, table_name@),
            final(self)@.wf(),
    {
        self.check();
        let found = self.table_exists(catalog_name, schema_name, table_name);
        match found {
            Some((catalog_id, Some((schema_id, Some(table_id))))) => {
                let mut table_ids: Vec<u64> = Vec::new();
                table_ids.push(table_id);
                self.drop_columns(&table_ids);
                proof {
                    use_type_invariant(&*self);
                    let listed = |column: ColumnRecord| !table_ids@.contains(column.table_id);
                    let other = |column: ColumnRecord| column.table_id != table_id;
                    assert forall|column: ColumnRecord| #[trigger] listed(column) == other(
                        column,
                    ) by {
                        if column.table_id == table_id {
                            assert(table_ids@[0] == column.table_id);
                        }
                    }
                    lemma_filter_same(old(self)@.columns, listed, other);
                }
                let mut columns: Vec<ColumnRecord> = Vec::new();
                std::mem::swap(&mut columns, &mut self.columns);
                let mut tables = NameIndex::new();
                std::mem::swap(&mut tables, &mut self.tables);
                tables.remove(table_id);
                self.tables = tables;
                self.columns = columns;
            },
            _ => {},
        }
        self.check();
        found
    }

    /// The columns of the table of the id, each with its ordinal, in the
    /// order of the ordinals; none for an id that no table has.
    pub fn table_columns(&self, table_id: u64) -> (columns: Vec<(u64, ColumnDefinition)>)
        ensures
            columns@ == self@.table_columns(table_id),
    {
        let ghost pred = |column: ColumnRecord| column.table_id == table_id;
        let ghost project = |column: ColumnRecord|
            (column.ordinal, ColumnDefinition { name: column.name, sql_type: column.sql_type });
        let ghost all = self.columns@;
        let mut columns: Vec<(u64, ColumnDefinition)> = Vec::new();
        let mut i: usize = 0;
        proof {
            reveal(Seq::filter);
            assert(all.take(0) =~= Seq::empty());
            assert(columns@ =~= all.take(0).filter(pred).map_values(project));
        }
        while i < self.columns.len()
            invariant
                i <= self.columns.len(),
                all == self.columns@,
                pred == (|column: ColumnRecord| column.table_id == table_id),
                project == (|column: ColumnRecord|
                    (
                        column.ordinal,
                        ColumnDefinition { name: column.name, sql_type: column.sql_type },
                    )),
                columns@ == all.take(i as int).filter(pred).map_values(project),
            decreases self.columns.len() - i,
        {
            proof {
                reveal(Seq::filter);
                assert(all.take(i + 1).drop_last() =~= all.take(i as int));
            }
            if self.columns[i].table_id == table_id {
                let ghost before = all.take(i as int).filter(pred);
                columns.push(
                    (
                        self.columns[i].ordinal,
                        ColumnDefinition {
                            name: self.columns[i].name.clone(),
                            sql_type: self.columns[i].sql_type,
                        },
                    ),
                );
                assert(columns@ =~= before.push(all[i as int]).map_values(project));
            }
            i = i + 1;
        }
        assert(all.take(i as int) =~= all);
        columns
    }

    /// Describes the table of the names: its ids and its columns in order.
    /// `Schema` where the catalog or the schema is missing, `Object` where
    /// the schema has no such table.
    pub fn table_desc(&self, catalog_name: &str, schema_name: &str, table_name: &str) -> (described:
        Result<TableDesc, NotFoundError>)
        ensures
            match described {
                Ok(table) => {
                    &&& self@.table_found(catalog_name@, schema_name@, table_name@) matches Some(
                        (_, Some((schema_id, Some(table_id)))),
                    )
                    &&& table.schema_id == schema_id
                    &&& table.table_id == table_id
                    &&& table.columns@ == self@.table_columns(table_id).map_values(
                        |column: (u64, ColumnDefinition)| column.1,
                    )
                },
                Err(NotFoundError::Object) => self@.table_found(
                    catalog_name@,
                    schema_name@,
                    table_name@,
                ) matches Some((_, Some((_, None)))),
                Err(NotFoundError::Schema) => {
                    ||| self@.table_found(catalog_name@, schema_name@, table_name@) is None
                    ||| self@.table_found(catalog_name@, schema_name@, table_name@) matches Some(
                        (_, None),
                    )
                },
            },
    {
        match self.table_exists(catalog_name, schema_name, table_name) {
            None => Err(NotFoundError::Schema),
            Some((_, None)) => Err(NotFoundError::Schema),
            Some((_, Some((_, None)))) => Err(NotFoundError::Object),
            Some((_, Some((schema_id, Some(table_id))))) => {
                let numbered = self.table_columns(table_id);
                let mut numbered = crate::query_engine::reversed(numbered);
                let ghost all = self@.table_columns(table_id);
                let mut columns: Vec<ColumnDefinition> = Vec::new();
                assert(columns@ =~= all.take(0).map_values(|column: (u64, ColumnDefinition)| column.1));
                while numbered.len() > 0
                    invariant
                        numbered@.len() <= all.len(),
                        numbered@ == all.reverse().subrange(0, numbered@.len() as int),
                        columns@ == all.take(all.len() - numbered@.len()).map_values(
                            |column: (u64, ColumnDefinition)| column.1,
                        ),
                    decreases numbered.len(),
                {
                    match numbered.pop() {
                        Some(column) => {
                            columns.push(column.1);
                            assert(numbered@ =~= all.reverse().subrange(0, numbered@.len() as int));
                            assert(columns@ =~= all.take(all.len() - numbered@.len()).map_values(
                                |column: (u64, ColumnDefinition)| column.1,
                            ));
                        },
                        None => {},
                    }
                }
                assert(all.take(all.len() as int) =~= all);
                Ok(TableDesc { schema_id, table_id, columns })
            },
        }
    }

    /// The names of the schema and the table of a handle, if there are such.
    pub fn table_name(&self, table_id: &FullTableId) -> (names: Option<(String, String)>)
        ensures
            match names {
                Some((schema_name, table_name)) => self@.table_names(*table_id) == Some(
                    (schema_name@, table_name@),
                ),
                None => self@.table_names(*table_id) is None,
            },
    {
        let schema_name = match self.schemata.lookup(table_id.0) {
            None => {
                return None;
            },
            Some((_, schema_name)) => schema_name,
        };
        match self.tables.lookup(table_id.1) {
            None => None,
            Some((schema_id, table_name)) => {
                if schema_id == table_id.0 {
                    Some((schema_name, table_name))
                } else {
                    None
                }
            },
        }
    }

    /// The name of the schema of the id, if there is one.
    pub fn schema_name(&self, schema_id: u64) -> (name: Option<String>)
        ensures
            match name {
                Some(name) => self@.schemata.record(schema_id) matches Some(schema) && schema.name
                    == name@,
                None => self@.schemata.record(schema_id) is None,
            },
    {
        match self.schemata.lookup(schema_id) {
            Some((_, name)) => Some(name),
            None => None,
        }
    }

    /// The definitions of the columns of a table at the ordinals, in the
    /// order of the ordinals; an ordinal that no column of the table has
    /// is passed over.
    pub fn column_defs(&self, table_id: &FullTableId, ordinals: &Vec<u64>) -> (columns: Vec<
        ColumnDefinition,
    >)
        ensures
            columns@ == selected(self@.table_columns(table_id.1), ordinals@).map_values(
                |column: (u64, ColumnDefinition)| column.1,
            ),
    {
        let numbered = self.table_columns(table_id.1);
        let chosen = select_columns(&numbered, ordinals);
        let ghost all = chosen@;
        let mut chosen = crate::query_engine::reversed(chosen);
        let mut columns: Vec<ColumnDefinition> = Vec::new();
        assert(columns@ =~= all.take(0).map_values(|column: (u64, ColumnDefinition)| column.1));
        while chosen.len() > 0
            invariant
                chosen@.len() <= all.len(),
                chosen@ == all.reverse().subrange(0, chosen@.len() as int),
                columns@ == all.take(all.len() - chosen@.len()).map_values(
                    |column: (u64, ColumnDefinition)| column.1,
                ),
            decreases chosen.len(),
        {
            match chosen.pop() {
                Some(column) => {
                    columns.push(column.1);
                    assert(chosen@ =~= all.reverse().subrange(0, chosen@.len() as int));
                    assert(columns@ =~= all.take(all.len() - chosen@.len()).map_values(
                        |column: (u64, ColumnDefinition)| column.1,
                    ));
                },
                None => {},
            }
        }
        assert(all.take(all.len() as int) =~= all);
        columns
    }
}

/// The column that has the ordinal among numbered columns.
pub open spec fn column_at(numbered: Seq<(u64, ColumnDefinition)>, ordinal: u64) -> Option<
    ColumnDefinition,
>
    decreases numbered.len(),
{
    if numbered.len() == 0 {
        None
    } else if numbered[0].0 == ordinal {
        Some(numbered[0].1)
    } else {
        column_at(numbered.drop_first(), ordinal)
    }
}

/// The columns at the ordinals, each with its ordinal, in the order of the
/// ordinals; an ordinal that no column has is passed over.
pub open spec fn selected(numbered: Seq<(u64, ColumnDefinition)>, ordinals: Seq<u64>) -> Seq<
    (u64, ColumnDefinition),
>
    decreases ordinals.len(),
{
    if ordinals.len() == 0 {
        Seq::empty()
    } else {
        let front = selected(numbered, ordinals.drop_last());
        match column_at(numbered, ordinals.last()) {
            Some(column) => front.push((ordinals.last(), column)),
            None => front,
        }
    }
}

/// The column that has the ordinal among numbered columns.
pub fn find_column(numbered: &Vec<(u64, ColumnDefinition)>, ordinal: u64) -> (column: Option<
    ColumnDefinition,
>)
    ensures
        column == column_at(numbered@, ordinal),
{
    let mut i: usize = 0;
    assert(numbered@.skip(0) =~= numbered@);
    while i < numbered.len()
        invariant
            i <= numbered.len(),
            column_at(numbered@, ordinal) == column_at(numbered@.skip(i as int), ordinal),
        decreases numbered.len() - i,
    {
        proof {
            assert(numbered@.skip(i as int).drop_first() =~= numbered@.skip(i + 1));
        }
        if numbered[i].0 == ordinal {
            return Some(
                ColumnDefinition { name: numbered[i].1.name.clone(), sql_type: numbered[i].1.sql_type },
            );
        }
        i = i + 1;
    }
    None
}

/// The columns at the ordinals, each with its ordinal.
pub fn select_columns(numbered: &Vec<(u64, ColumnDefinition)>, ordinals: &Vec<u64>) -> (chosen: Vec<
    (u64, ColumnDefinition),
>)
    ensures
        chosen@ == selected(numbered@, ordinals@),
{
    let mut chosen: Vec<(u64, ColumnDefinition)> = Vec::new();
    let mut i: usize = 0;
    assert(ordinals@.take(0) =~= Seq::empty());
    while i < ordinals.len()
        invariant
            i <= ordinals.len(),
            chosen@ == selected(numbered@, ordinals@.take(i as int)),
        decreases ordinals.len() - i,
    {
        proof {
            assert(ordinals@.take(i + 1).drop_last() =~= ordinals@.take(i as int));
        }
        match find_column(numbered, ordinals[i]) {
            Some(column) => {
                chosen.push((ordinals[i], column));
            },
            None => {},
        }
        i = i + 1;
    }
    assert(ordinals@.take(i as int) =~= ordinals@);
    chosen
}

/// Two predicates that agree keep the same elements.
pub proof fn lemma_filter_same<A>(s: Seq<A>, p: spec_fn(A) -> bool, q: spec_fn(A) -> bool)
    requires
        forall|a: A| #[trigger] p(a) == q(a),
    ensures
        s.filter(p) == s.filter(q),
    decreases s.len(),
{
    reveal(Seq::filter);
    if s.len() > 0 {
        lemma_filter_same(s.drop_last(), p, q);
    }
}

} // verus!
