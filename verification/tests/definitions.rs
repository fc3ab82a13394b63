use sql_engine::metadata::{ColumnDefinition, DataDefinition, NotFoundError, TableDesc, DEFAULT_CATALOG};
use sql_engine::name_index::NameIndex;
use sql_engine::name_map::NameMap;
use sql_engine::sql_types::SqlType;
use sql_engine::text::{decimal, signed_decimal};

#[test]
fn numbers_are_written_in_decimal() {
    assert_eq!(decimal(0), "0");
    assert_eq!(decimal(7), "7");
    assert_eq!(decimal(10), "10");
    assert_eq!(decimal(1234567890), "1234567890");
    assert_eq!(decimal(u64::MAX), "18446744073709551615");
    assert_eq!(signed_decimal(0), "0");
    assert_eq!(signed_decimal(-1), "-1");
    assert_eq!(signed_decimal(i64::MIN), "-9223372036854775808");
    assert_eq!(signed_decimal(i64::MAX), "9223372036854775807");
}

#[test]
fn sql_types_are_written_as_in_sql() {
    assert_eq!(SqlType::Bool.to_string(), "bool");
    assert_eq!(SqlType::Char(1).to_string(), "char(1)");
    assert_eq!(SqlType::VarChar(255).to_string(), "varchar(255)");
    assert_eq!(SqlType::SmallInt.to_string(), "smallint");
    assert_eq!(SqlType::Integer.to_string(), "integer");
    assert_eq!(SqlType::BigInt.to_string(), "bigint");
    assert_eq!(SqlType::Real.to_string(), "real");
    assert_eq!(SqlType::DoublePrecision.to_string(), "double precision");
}

#[test]
fn a_name_map_keeps_the_last_value_of_a_name() {
    let mut map = NameMap::new();
    assert_eq!(map.get("a"), None);
    assert_eq!(map.contains("a"), false);
    map.insert("a".to_owned(), 1);
    map.insert("b".to_owned(), 2);
    map.insert("a".to_owned(), 3);
    assert_eq!(map.get("a"), Some(&3));
    assert_eq!(map.get("b"), Some(&2));
    assert_eq!(map.get(""), None);
    assert_eq!(map.contains("b"), true);
}

#[test]
fn a_name_index_hands_out_ids_in_order_and_never_again() {
    let mut index = NameIndex::new();
    assert_eq!(index.add(1, "a"), Some(0));
    assert_eq!(index.add(1, "b"), Some(1));
    assert_eq!(index.add(2, "a"), Some(2));
    assert_eq!(index.add(1, "a"), None);
    assert_eq!(index.find(1, "a"), Some(0));
    assert_eq!(index.find(2, "a"), Some(2));
    assert_eq!(index.find(2, "b"), None);
    assert_eq!(index.lookup(1), Some((1, "b".to_owned())));
    assert_eq!(index.lookup(3), None);
    assert_eq!(index.ids_of_owner(1), vec![0, 1]);
    index.remove(0);
    assert_eq!(index.find(1, "a"), None);
    assert_eq!(index.lookup(0), None);
    assert_eq!(index.add(1, "a"), Some(3));
    index.remove_owner(1);
    assert_eq!(index.ids_of_owner(1), vec![]);
    assert_eq!(index.find(2, "a"), Some(2));
    assert_eq!(index.add(1, "b"), Some(4));
    assert_eq!(index.has_room(), true);
}

#[test]
fn schemas_and_tables_are_found_by_their_names() {
    let mut definitions = DataDefinition::in_memory();

    assert_eq!(definitions.schema_exists(DEFAULT_CATALOG, "s"), None);
    assert_eq!(definitions.create_schema(DEFAULT_CATALOG, "s"), None);
    assert_eq!(definitions.create_table(DEFAULT_CATALOG, "s", "t", &[]), None);
    assert_eq!(definitions.create_catalog(DEFAULT_CATALOG), true);
    assert_eq!(definitions.create_catalog(DEFAULT_CATALOG), false);
    assert_eq!(definitions.schema_exists(DEFAULT_CATALOG, "s"), Some((0, None)));
    assert_eq!(definitions.table_exists(DEFAULT_CATALOG, "s", "t"), Some((0, None)));
    assert_eq!(definitions.create_table(DEFAULT_CATALOG, "s", "t", &[]), Some((0, None)));
    assert_eq!(definitions.create_schema(DEFAULT_CATALOG, "s"), Some((0, Some(0))));
    assert_eq!(definitions.create_schema(DEFAULT_CATALOG, "s"), Some((0, None)));
    assert_eq!(definitions.create_schema(DEFAULT_CATALOG, "other"), Some((0, Some(1))));
    assert_eq!(definitions.schema_exists(DEFAULT_CATALOG, "s"), Some((0, Some(0))));
    assert_eq!(definitions.table_exists(DEFAULT_CATALOG, "s", "t"), Some((0, Some((0, None)))));
    let columns = [
        ColumnDefinition::new("a", SqlType::Bool),
        ColumnDefinition::new("b", SqlType::Char(3)),
    ];
    assert_eq!(
        definitions.create_table(DEFAULT_CATALOG, "s", "t", &columns),
        Some((0, Some((0, Some(0)))))
    );
    assert_eq!(
        definitions.create_table(DEFAULT_CATALOG, "s", "t", &columns),
        Some((0, Some((0, None))))
    );
    assert_eq!(
        definitions.create_table(DEFAULT_CATALOG, "other", "t", &columns[..1]),
        Some((0, Some((1, Some(1)))))
    );
    assert_eq!(
        definitions.table_exists(DEFAULT_CATALOG, "s", "t"),
        Some((0, Some((0, Some(0)))))
    );
    assert_eq!(
        definitions.table_columns(0),
        vec![(0, columns[0].clone()), (1, columns[1].clone())]
    );
    assert_eq!(definitions.table_columns(1), vec![(0, columns[0].clone())]);
    assert_eq!(definitions.column_defs(&(0, 0), &vec![1]), vec![columns[1].clone()]);
    assert_eq!(
        definitions.column_defs(&(0, 0), &vec![1, 7, 0, 1]),
        vec![columns[1].clone(), columns[0].clone(), columns[1].clone()]
    );
    assert_eq!(definitions.table_name(&(0, 0)), Some(("s".to_owned(), "t".to_owned())));
    assert_eq!(definitions.table_name(&(1, 0)), None);
    assert_eq!(definitions.table_name(&(0, 5)), None);
    assert_eq!(definitions.schema_name(1), Some("other".to_owned()));
    assert_eq!(definitions.schema_name(2), None);
}

#[test]
fn tables_are_described_or_what_is_missing_is_said() {
    let mut definitions = DataDefinition::in_memory();
    definitions.create_catalog(DEFAULT_CATALOG);

    assert_eq!(definitions.table_desc(DEFAULT_CATALOG, "s", "t"), Err(NotFoundError::Schema));
    assert_eq!(definitions.table_desc("nowhere", "s", "t"), Err(NotFoundError::Schema));
    definitions.create_schema(DEFAULT_CATALOG, "s");
    assert_eq!(definitions.table_desc(DEFAULT_CATALOG, "s", "t"), Err(NotFoundError::Object));
    let columns = [ColumnDefinition::new("a", SqlType::Integer)];
    definitions.create_table(DEFAULT_CATALOG, "s", "t", &columns);
    let described = definitions.table_desc(DEFAULT_CATALOG, "s", "t").unwrap();
    assert_eq!(
        described,
        TableDesc {
            schema_id: 0,
            table_id: 0,
            columns: columns.to_vec()
        }
    );
    assert_eq!(described.full_table_id(), (0, 0));
    assert_eq!(described.column_types(), vec![SqlType::Integer]);
    assert_eq!(columns[0].name(), "a");
    assert_eq!(columns[0].sql_type(), SqlType::Integer);
}

#[test]
fn dropped_names_are_free_again_but_ids_are_not() {
    let mut definitions = DataDefinition::in_memory();
    definitions.create_catalog(DEFAULT_CATALOG);
    definitions.create_schema(DEFAULT_CATALOG, "s");
    let columns = [ColumnDefinition::new("a", SqlType::Integer)];
    definitions.create_table(DEFAULT_CATALOG, "s", "t", &columns);
    definitions.create_table(DEFAULT_CATALOG, "s", "u", &columns);

    assert_eq!(definitions.drop_table(DEFAULT_CATALOG, "s", "none"), Some((0, Some((0, None)))));
    assert_eq!(definitions.drop_table(DEFAULT_CATALOG, "none", "t"), Some((0, None)));
    assert_eq!(definitions.drop_table("none", "s", "t"), None);
    assert_eq!(definitions.drop_table(DEFAULT_CATALOG, "s", "t"), Some((0, Some((0, Some(0))))));
    assert_eq!(definitions.table_columns(0), vec![]);
    assert_eq!(definitions.table_columns(1), vec![(0, columns[0].clone())]);
    assert_eq!(
        definitions.create_table(DEFAULT_CATALOG, "s", "t", &[]),
        Some((0, Some((0, Some(2)))))
    );
    assert_eq!(definitions.drop_schema(DEFAULT_CATALOG, "none"), Some((0, None)));
    assert_eq!(definitions.drop_schema("none", "s"), None);
    assert_eq!(definitions.drop_schema(DEFAULT_CATALOG, "s"), Some((0, Some(0))));
    assert_eq!(definitions.table_columns(1), vec![]);
    assert_eq!(definitions.table_exists(DEFAULT_CATALOG, "s", "u"), Some((0, None)));
    assert_eq!(definitions.create_schema(DEFAULT_CATALOG, "s"), Some((0, Some(1))));
    assert_eq!(definitions.table_exists(DEFAULT_CATALOG, "s", "u"), Some((0, Some((1, None)))));
    assert_eq!(
        definitions.create_table(DEFAULT_CATALOG, "s", "u", &[]),
        Some((0, Some((1, Some(3)))))
    );
    assert_eq!(definitions.has_room(), true);
}
