use sql_engine::binary::{Binary, Datum};
use sql_engine::in_memory::{InMemoryCatalogHandle, InMemoryTableHandle, Key, Value};

const SCHEMA: &str = "schema_name";
const SCHEMA_1: &str = "schema_name_1";
const SCHEMA_2: &str = "schema_name_2";
const TABLE: &str = "table_name";
const TABLE_1: &str = "table_name_1";
const TABLE_2: &str = "table_name_2";
const DOES_NOT_EXIST: &str = "does_not_exist";

fn catalog() -> InMemoryCatalogHandle {
    InMemoryCatalogHandle::default()
}

fn scan(catalog_handle: &InMemoryCatalogHandle) -> Vec<(Key, Value)> {
    catalog_handle
        .work_with(SCHEMA, |schema| schema.work_with(TABLE, |table| table.select()))
        .unwrap()
        .unwrap()
        .collect()
}

#[test]
fn create_schemas_with_different_names() {
    let mut catalog_handle = catalog();

    assert_eq!(catalog_handle.create_schema(SCHEMA_1), true);
    assert_eq!(catalog_handle.work_with(SCHEMA_1, |_schema| 1), Some(1));
    assert_eq!(catalog_handle.create_schema(SCHEMA_2), true);
    assert_eq!(catalog_handle.work_with(SCHEMA_2, |_schema| 2), Some(2));
}

#[test]
fn drop_schema() {
    let mut catalog_handle = catalog();

    assert!(catalog_handle.create_schema(SCHEMA));
    assert_eq!(catalog_handle.drop_schema(SCHEMA), true);
    assert!(matches!(catalog_handle.work_with(SCHEMA, |_schema| 1), None));
    assert_eq!(catalog_handle.create_schema(SCHEMA), true);
    assert!(matches!(catalog_handle.work_with(SCHEMA, |_schema| 1), Some(1)));
}

#[test]
fn dropping_schema_drops_tables_in_it() {
    let mut catalog_handle = catalog();

    assert_eq!(catalog_handle.create_schema(SCHEMA), true);

    assert_eq!(catalog_handle.create_table(SCHEMA, TABLE_1), Some(true));
    assert_eq!(catalog_handle.create_table(SCHEMA, TABLE_2), Some(true));

    assert_eq!(catalog_handle.drop_schema(SCHEMA), true);
    assert_eq!(catalog_handle.create_schema(SCHEMA), true);
    assert_eq!(catalog_handle.create_table(SCHEMA, TABLE_1), Some(true));
    assert_eq!(catalog_handle.create_table(SCHEMA, TABLE_2), Some(true));
}

#[test]
fn create_schema_with_the_same_name() {
    let mut catalog_handle = catalog();

    assert_eq!(catalog_handle.create_schema(SCHEMA), true);
    assert_eq!(catalog_handle.create_schema(SCHEMA), false);
}

#[test]
fn drop_schema_that_does_not_exist() {
    let mut catalog_handle = catalog();

    assert_eq!(catalog_handle.drop_schema(SCHEMA), false);
}

#[test]
fn create_tables_with_different_names() {
    let mut catalog_handle = catalog();

    assert_eq!(catalog_handle.create_schema(SCHEMA), true);

    assert_eq!(catalog_handle.create_table(SCHEMA, TABLE_1), Some(true));
    assert_eq!(catalog_handle.create_table(SCHEMA, TABLE_2), Some(true));
}

#[test]
fn create_tables_with_the_same_name_in_the_same_schema() {
    let mut catalog_handle = catalog();

    assert_eq!(catalog_handle.create_schema(SCHEMA), true);
    assert_eq!(catalog_handle.create_table(SCHEMA, TABLE), Some(true));
    assert_eq!(catalog_handle.create_table(SCHEMA, TABLE), Some(false));
}

#[test]
fn create_tables_in_non_existent_schema() {
    let mut catalog_handle = catalog();

    assert_eq!(catalog_handle.create_table(DOES_NOT_EXIST, TABLE), None);
}

#[test]
fn create_table_with_the_same_name_in_different_namespaces() {
    let mut catalog_handle = catalog();

    assert_eq!(catalog_handle.create_schema(SCHEMA_1), true);
    assert_eq!(catalog_handle.create_schema(SCHEMA_2), true);

    assert_eq!(catalog_handle.create_table(SCHEMA_1, TABLE), Some(true));
    assert_eq!(catalog_handle.create_table(SCHEMA_2, TABLE), Some(true));
}

#[test]
fn drop_table() {
    let mut catalog_handle = catalog();

    assert_eq!(catalog_handle.create_schema(SCHEMA), true);

    assert_eq!(catalog_handle.create_table(SCHEMA, TABLE), Some(true));
    assert_eq!(catalog_handle.drop_table(SCHEMA, TABLE), Some(true));
}

#[test]
fn drop_table_from_schema_that_does_not_exist() {
    let mut catalog_handle = catalog();

    assert_eq!(catalog_handle.drop_table(DOES_NOT_EXIST, TABLE), None);
}

#[test]
fn drop_table_that_does_not_exist() {
    let mut catalog_handle = catalog();

    assert_eq!(catalog_handle.create_schema(SCHEMA), true);
    assert_eq!(catalog_handle.drop_table(SCHEMA, DOES_NOT_EXIST), Some(false));
}

#[test]
fn scan_table_that_in_schema_that_does_not_exist() {
    let catalog_handle = catalog();

    assert!(matches!(
        catalog_handle.work_with(DOES_NOT_EXIST, |schema| schema.work_with(TABLE, |table| table.select())),
        None
    ));
}

#[test]
fn scan_table_that_does_not_exist() {
    let mut catalog_handle = catalog();

    assert_eq!(catalog_handle.create_schema(SCHEMA), true);
    assert!(matches!(
        catalog_handle.work_with(SCHEMA, |schema| schema.work_with(DOES_NOT_EXIST, |table| table.select())),
        Some(None)
    ));
}

#[test]
fn insert_a_row_into_table_in_schema_that_does_not_exist() {
    let mut catalog_handle = catalog();

    assert_eq!(catalog_handle.insert(SCHEMA, TABLE, vec![]), None);
}

#[test]
fn insert_a_row_into_table_that_does_not_exist() {
    let mut catalog_handle = catalog();

    assert_eq!(catalog_handle.create_schema(SCHEMA), true);

    assert_eq!(catalog_handle.insert(SCHEMA, TABLE, vec![]), Some(None));
}

#[test]
fn insert_row_into_table_and_scan() {
    let mut catalog_handle = catalog();

    assert_eq!(catalog_handle.create_schema(SCHEMA), true);
    assert_eq!(catalog_handle.create_table(SCHEMA, TABLE), Some(true));

    assert_eq!(
        catalog_handle.insert(SCHEMA, TABLE, vec![Binary::pack(&[Datum::from_u64(1)])]),
        Some(Some(1))
    );

    assert_eq!(
        scan(&catalog_handle),
        vec![(Binary::pack(&[Datum::from_u64(0)]), Binary::pack(&[Datum::from_u64(1)]))]
    );
}

#[test]
fn insert_many_rows_into_table_and_scan() {
    let mut catalog_handle = catalog();

    assert_eq!(catalog_handle.create_schema(SCHEMA), true);
    assert_eq!(catalog_handle.create_table(SCHEMA, TABLE), Some(true));

    assert_eq!(
        catalog_handle.insert(
            SCHEMA,
            TABLE,
            vec![Binary::pack(&[Datum::from_u64(1)]), Binary::pack(&[Datum::from_u64(2)])]
        ),
        Some(Some(2))
    );

    assert_eq!(
        scan(&catalog_handle),
        vec![
            (Binary::pack(&[Datum::from_u64(0)]), Binary::pack(&[Datum::from_u64(1)])),
            (Binary::pack(&[Datum::from_u64(1)]), Binary::pack(&[Datum::from_u64(2)]))
        ]
    );
}

#[test]
fn delete_from_table_that_in_schema_that_does_not_exist() {
    let mut catalog_handle = catalog();

    assert_eq!(catalog_handle.delete(DOES_NOT_EXIST, TABLE, vec![]), None);
}

#[test]
fn delete_from_table_that_does_not_exist() {
    let mut catalog_handle = catalog();

    assert_eq!(catalog_handle.create_schema(SCHEMA), true);
    assert_eq!(catalog_handle.delete(SCHEMA, DOES_NOT_EXIST, vec![]), Some(None));
}

#[test]
fn insert_delete_scan_records_from_table() {
    let mut catalog_handle = catalog();

    assert_eq!(catalog_handle.create_schema(SCHEMA), true);
    assert_eq!(catalog_handle.create_table(SCHEMA, TABLE), Some(true));

    assert_eq!(
        catalog_handle.insert(
            SCHEMA,
            TABLE,
            vec![Binary::pack(&[Datum::from_u64(1)]), Binary::pack(&[Datum::from_u64(2)])]
        ),
        Some(Some(2))
    );

    assert_eq!(
        catalog_handle.delete(SCHEMA, TABLE, vec![Binary::pack(&[Datum::from_u64(1)])]),
        Some(Some(1))
    );

    assert_eq!(
        scan(&catalog_handle),
        vec![(Binary::pack(&[Datum::from_u64(0)]), Binary::pack(&[Datum::from_u64(1)]))]
    );
}

#[test]
fn update_table_that_in_schema_that_does_not_exist() {
    let mut catalog_handle = catalog();

    assert_eq!(catalog_handle.update(DOES_NOT_EXIST, TABLE, vec![]), None);
}

#[test]
fn update_table_that_does_not_exist() {
    let mut catalog_handle = catalog();

    assert_eq!(catalog_handle.create_schema(SCHEMA), true);
    assert_eq!(catalog_handle.update(SCHEMA, DOES_NOT_EXIST, vec![]), Some(None));
}

#[test]
fn insert_update_scan_records_from_table() {
    let mut catalog_handle = catalog();

    assert_eq!(catalog_handle.create_schema(SCHEMA), true);
    assert_eq!(catalog_handle.create_table(SCHEMA, TABLE), Some(true));

    assert_eq!(
        catalog_handle.insert(
            SCHEMA,
            TABLE,
            vec![Binary::pack(&[Datum::from_u64(1)]), Binary::pack(&[Datum::from_u64(2)])]
        ),
        Some(Some(2))
    );

    assert_eq!(
        catalog_handle.update(
            SCHEMA,
            TABLE,
            vec![(Binary::pack(&[Datum::from_u64(1)]), Binary::pack(&[Datum::from_u64(4)]))]
        ),
        Some(Some(1))
    );

    assert_eq!(
        scan(&catalog_handle),
        vec![
            (Binary::pack(&[Datum::from_u64(0)]), Binary::pack(&[Datum::from_u64(1)])),
            (Binary::pack(&[Datum::from_u64(1)]), Binary::pack(&[Datum::from_u64(4)])),
        ]
    );
}

#[test]
fn record_ids_are_not_reused_after_delete() {
    let mut table = InMemoryTableHandle::default();
    let one = Binary::pack(&[Datum::from_bool(true)]);
    let two = Binary::pack(&[Datum::from_bool(false)]);

    assert_eq!(table.insert(vec![one.clone(), two.clone()]), 2);
    assert_eq!(table.delete(vec![Binary::record_key(0), Binary::record_key(1)]), 2);
    assert_eq!(table.select().collect(), vec![]);
    assert_eq!(table.insert(vec![two.clone()]), 1);
    assert_eq!(table.select().collect(), vec![(Binary::record_key(2), two)]);
}

#[test]
fn update_counts_only_keys_that_are_stored() {
    let mut table = InMemoryTableHandle::default();
    let value = Binary::pack(&[Datum::from_i16(7)]);
    let other = Binary::pack(&[Datum::from_i16(8)]);

    assert_eq!(table.insert(vec![value.clone()]), 1);
    assert_eq!(
        table.update(vec![
            (Binary::record_key(5), other.clone()),
            (Binary::pack(&[Datum::from_str("no key")]), other.clone()),
            (Binary::record_key(0), other.clone()),
        ]),
        1
    );
    assert_eq!(table.select().collect(), vec![(Binary::record_key(0), other)]);
}

#[test]
fn delete_ignores_keys_that_are_not_stored() {
    let mut table = InMemoryTableHandle::default();
    let value = Binary::pack(&[Datum::from_i32(7)]);

    assert_eq!(table.insert(vec![value.clone(), value.clone(), value.clone()]), 3);
    assert_eq!(table.delete(vec![Binary::record_key(9), Binary::record_key(1)]), 1);
    assert_eq!(
        table.select().collect(),
        vec![(Binary::record_key(0), value.clone()), (Binary::record_key(2), value)]
    );
}

#[test]
fn cursor_hands_out_rows_one_by_one() {
    let mut table = InMemoryTableHandle::default();
    let first = Binary::pack(&[Datum::from_i64(-1)]);
    let second = Binary::pack(&[Datum::from_i64(1)]);

    assert_eq!(table.insert(vec![first.clone(), second.clone()]), 2);
    let mut cursor = table.select();
    assert_eq!(cursor.next(), Some((Binary::record_key(0), first)));
    assert_eq!(cursor.collect(), vec![(Binary::record_key(1), second)]);
}

#[test]
fn column_ordinals_grow_by_one() {
    let mut table = InMemoryTableHandle::default();

    assert_eq!(table.next_column_ord(), 0);
    assert_eq!(table.next_column_ord(), 1);
    assert_eq!(table.next_column_ord(), 2);
}

#[test]
fn recreated_schema_is_empty() {
    let mut catalog_handle = catalog();

    assert_eq!(catalog_handle.create_schema(SCHEMA), true);
    assert_eq!(catalog_handle.create_table(SCHEMA, TABLE), Some(true));
    assert_eq!(catalog_handle.drop_schema(SCHEMA), true);
    assert_eq!(catalog_handle.create_schema(SCHEMA), true);
    assert_eq!(catalog_handle.insert(SCHEMA, TABLE, vec![]), Some(None));
    assert!(matches!(catalog_handle.select(SCHEMA, TABLE), Some(None)));
    assert_eq!(catalog_handle.schema_exists(SCHEMA), true);
}
