use sql_engine::analyzer::{AnalysisError, Analyzer, CreateSchemaQuery, InsertQuery, QueryAnalysis, SchemaChange, Write};
use sql_engine::coercion::{coerce, coerce_value, parse_digits, CoercionError, ParsedDigits};
use sql_engine::statement::{CreateTableParts, Literal, SessionStatement};
use sql_engine::binary::{Binary, Datum};
use bigdecimal::BigDecimal;
use sql_engine::data_manager::DataManager;
use sql_engine::expr_eval::{BinaryOp, ScalarOp, ScalarValue};
use sql_engine::metadata::ColumnDefinition;
use sql_engine::protocol::{PlanError, QueryError, QueryEvent, QueryResult};
use sql_engine::query_executor::{
    DeleteCommand, DropTableCommand, Plan, QueryExecutor, SelectInput, TableDeletes,
};
use sql_engine::query_planner::{coerce_row, report, InsertProblem, QueryPlanner};
use sql_engine::sql_types::{PgType, SqlType};

const SCHEMA: &str = "s";
const TABLE: &str = "t";

fn rows(data_manager: &DataManager, table_id: &(u64, u64)) -> Vec<(Binary, Binary)> {
    data_manager.full_scan(table_id).expect("to scan a table").collect()
}

fn with_table(columns: &[ColumnDefinition]) -> (DataManager, (u64, u64)) {
    let mut data_manager = DataManager::in_memory();
    data_manager.create_schema(SCHEMA).expect("schema created");
    let table_id = data_manager
        .create_table(SCHEMA, TABLE, columns)
        .expect("table created");
    (data_manager, table_id)
}

fn create_schema(name: &str) -> Plan {
    Plan::CreateSchema {
        schema_name: name.to_owned(),
        if_not_exists: false,
    }
}

fn drop_schema(name: &str) -> Plan {
    Plan::DropSchemas {
        schema_names: vec![name.to_owned()],
        cascade: false,
    }
}

fn ok(event: QueryEvent) -> QueryResult {
    Ok(event)
}

#[test]
fn create_and_drop_schema_idempotency() {
    let executor = QueryExecutor::new();
    let mut data_manager = DataManager::in_memory();

    assert_eq!(
        executor.execute(create_schema(SCHEMA), &mut data_manager),
        vec![ok(QueryEvent::SchemaCreated)]
    );
    assert_eq!(
        executor.execute(create_schema(SCHEMA), &mut data_manager),
        vec![Err(QueryError::schema_already_exists("s".to_owned()))]
    );
    assert_eq!(
        executor.execute(drop_schema(SCHEMA), &mut data_manager),
        vec![ok(QueryEvent::SchemaDropped)]
    );
    assert_eq!(
        executor.execute(drop_schema(SCHEMA), &mut data_manager),
        vec![Err(QueryError::schema_does_not_exist("s".to_owned()))]
    );
}

#[test]
fn create_schema_if_not_exists() {
    let executor = QueryExecutor::new();
    let mut data_manager = DataManager::in_memory();
    let plan = || Plan::CreateSchema {
        schema_name: SCHEMA.to_owned(),
        if_not_exists: true,
    };

    assert_eq!(executor.execute(plan(), &mut data_manager), vec![ok(QueryEvent::SchemaCreated)]);
    assert_eq!(executor.execute(plan(), &mut data_manager), vec![ok(QueryEvent::SchemaCreated)]);
}

#[test]
fn drop_several_schemas() {
    let executor = QueryExecutor::new();
    let mut data_manager = DataManager::in_memory();
    data_manager.create_schema("a").expect("schema created");
    data_manager.create_schema("b").expect("schema created");

    assert_eq!(
        executor.execute(
            Plan::DropSchemas {
                schema_names: vec!["a".to_owned(), "c".to_owned(), "a".to_owned(), "b".to_owned()],
                cascade: true,
            },
            &mut data_manager
        ),
        vec![
            ok(QueryEvent::SchemaDropped),
            Err(QueryError::schema_does_not_exist("c".to_owned())),
            Err(QueryError::schema_does_not_exist("a".to_owned())),
            ok(QueryEvent::SchemaDropped),
        ]
    );
}

#[test]
fn insert_and_select() {
    let executor = QueryExecutor::new();
    let (mut data_manager, table_id) = with_table(&[ColumnDefinition::new("c", SqlType::Bool)]);
    let insert = || Plan::Insert {
        table_id,
        rows: vec![vec![Datum::from_bool(true)]],
    };

    assert_eq!(
        executor.execute(insert(), &mut data_manager),
        vec![ok(QueryEvent::RecordsInserted(1))]
    );
    assert_eq!(
        executor.execute(insert(), &mut data_manager),
        vec![ok(QueryEvent::RecordsInserted(1))]
    );
    assert_eq!(
        rows(&data_manager, &table_id),
        vec![
            (Binary::pack(&[Datum::from_u64(0)]), Binary::pack(&[Datum::from_bool(true)])),
            (Binary::pack(&[Datum::from_u64(1)]), Binary::pack(&[Datum::from_bool(true)])),
        ]
    );
    assert_eq!(
        executor.execute(
            Plan::Select(SelectInput {
                table_id,
                selected_columns: vec![0]
            }),
            &mut data_manager
        ),
        vec![
            ok(QueryEvent::RowDescription(vec![("c".to_owned(), PgType::Bool)])),
            ok(QueryEvent::DataRow(vec!["t".to_owned()])),
            ok(QueryEvent::DataRow(vec!["t".to_owned()])),
            ok(QueryEvent::RecordsSelected(2)),
        ]
    );
}

#[test]
fn update_specific_key() {
    let (mut data_manager, table_id) = with_table(&[ColumnDefinition::new("c", SqlType::BigInt)]);

    assert_eq!(
        data_manager.write_into(
            &table_id,
            vec![Binary::pack(&[Datum::from_u64(1)]), Binary::pack(&[Datum::from_u64(2)])]
        ),
        Ok(2)
    );
    assert_eq!(
        data_manager.update_in(
            &table_id,
            vec![(Binary::pack(&[Datum::from_u64(1)]), Binary::pack(&[Datum::from_u64(4)]))]
        ),
        Ok(1)
    );
    assert_eq!(
        rows(&data_manager, &table_id),
        vec![
            (Binary::pack(&[Datum::from_u64(0)]), Binary::pack(&[Datum::from_u64(1)])),
            (Binary::pack(&[Datum::from_u64(1)]), Binary::pack(&[Datum::from_u64(4)])),
        ]
    );
}

#[test]
fn delete_by_key() {
    let (mut data_manager, table_id) = with_table(&[ColumnDefinition::new("c", SqlType::BigInt)]);

    assert_eq!(
        data_manager.write_into(
            &table_id,
            vec![Binary::pack(&[Datum::from_u64(1)]), Binary::pack(&[Datum::from_u64(2)])]
        ),
        Ok(2)
    );
    assert_eq!(
        data_manager.delete_from(&table_id, vec![Binary::pack(&[Datum::from_u64(1)])]),
        Ok(1)
    );
    assert_eq!(
        rows(&data_manager, &table_id),
        vec![(Binary::pack(&[Datum::from_u64(0)]), Binary::pack(&[Datum::from_u64(1)]))]
    );
    assert_eq!(
        DeleteCommand::new(TableDeletes { table_id, predicate: None }).execute(&mut data_manager),
        vec![ok(QueryEvent::RecordsDeleted(1))]
    );
    assert_eq!(rows(&data_manager, &table_id), vec![]);
}

#[test]
fn delete_removes_all_rows_and_keeps_the_record_ids() {
    let executor = QueryExecutor::new();
    let (mut data_manager, table_id) = with_table(&[ColumnDefinition::new("c", SqlType::SmallInt)]);
    let insert = |value: i16| Plan::Insert {
        table_id,
        rows: vec![vec![Datum::from_i16(value)], vec![Datum::from_i16(value + 1)]],
    };

    assert_eq!(
        executor.execute(insert(1), &mut data_manager),
        vec![ok(QueryEvent::RecordsInserted(2))]
    );
    assert_eq!(
        executor.execute(Plan::Delete(TableDeletes { table_id, predicate: None }), &mut data_manager),
        vec![ok(QueryEvent::RecordsDeleted(2))]
    );
    assert_eq!(
        executor.execute(Plan::Delete(TableDeletes { table_id, predicate: None }), &mut data_manager),
        vec![ok(QueryEvent::RecordsDeleted(0))]
    );
    assert_eq!(
        executor.execute(insert(5), &mut data_manager),
        vec![ok(QueryEvent::RecordsInserted(2))]
    );
    assert_eq!(
        rows(&data_manager, &table_id),
        vec![
            (Binary::record_key(2), Binary::pack(&[Datum::from_i16(5)])),
            (Binary::record_key(3), Binary::pack(&[Datum::from_i16(6)])),
        ]
    );
}

#[test]
fn update_puts_the_assignments_into_every_row() {
    let executor = QueryExecutor::new();
    let (mut data_manager, table_id) = with_table(&[
        ColumnDefinition::new("c", SqlType::Integer),
        ColumnDefinition::new("d", SqlType::VarChar(5)),
    ]);

    assert_eq!(
        executor.execute(
            Plan::Insert {
                table_id,
                rows: vec![
                    vec![Datum::from_i32(1), Datum::from_str("a")],
                    vec![Datum::from_i32(2), Datum::from_str("b")],
                    vec![Datum::from_i32(3)]
                ],
            },
            &mut data_manager
        ),
        vec![ok(QueryEvent::RecordsInserted(3))]
    );
    assert_eq!(
        data_manager.write_into(&table_id, vec![Binary::with_data(vec![1, 2, 3])]),
        Ok(1)
    );
    assert_eq!(
        executor.execute(
            Plan::Update {
                table_id,
                assignments: vec![
                    (1, SqlType::VarChar(5), ScalarOp::Value(ScalarValue::String("x".to_owned()))),
                    (7, SqlType::Bool, ScalarOp::Value(ScalarValue::Null)),
                    (1, SqlType::VarChar(5), ScalarOp::Value(ScalarValue::String("y".to_owned())))
                ],
            },
            &mut data_manager
        ),
        vec![ok(QueryEvent::RecordsUpdated(4))]
    );
    assert_eq!(
        rows(&data_manager, &table_id),
        vec![
            (
                Binary::record_key(0),
                Binary::pack(&[Datum::from_i32(1), Datum::from_str("y")])
            ),
            (
                Binary::record_key(1),
                Binary::pack(&[Datum::from_i32(2), Datum::from_str("y")])
            ),
            (Binary::record_key(2), Binary::pack(&[Datum::from_i32(3)])),
            (Binary::record_key(3), Binary::with_data(vec![1, 2, 3])),
        ]
    );
    assert_eq!(
        executor.execute(
            Plan::Update {
                table_id,
                assignments: vec![],
            },
            &mut data_manager
        ),
        vec![ok(QueryEvent::RecordsUpdated(4))]
    );
}

#[test]
fn select_reads_the_selected_columns_in_the_order_of_the_selection() {
    let executor = QueryExecutor::new();
    let (mut data_manager, table_id) = with_table(&[
        ColumnDefinition::new("flag", SqlType::Bool),
        ColumnDefinition::new("count", SqlType::BigInt),
        ColumnDefinition::new("name", SqlType::VarChar(10)),
        ColumnDefinition::new("small", SqlType::SmallInt),
    ]);

    assert_eq!(
        executor.execute(
            Plan::Insert {
                table_id,
                rows: vec![
                    vec![
                        Datum::from_bool(false),
                        Datum::from_i64(-1234567890123),
                        Datum::from_str("abc"),
                        Datum::from_i16(0),
                    ],
                    vec![Datum::from_null(), Datum::from_u64(18446744073709551615)],
                ],
            },
            &mut data_manager
        ),
        vec![ok(QueryEvent::RecordsInserted(2))]
    );
    assert_eq!(
        executor.execute(
            Plan::Select(SelectInput {
                table_id,
                selected_columns: vec![3, 2, 0, 1, 9]
            }),
            &mut data_manager
        ),
        vec![
            ok(QueryEvent::RowDescription(vec![
                ("small".to_owned(), PgType::SmallInt),
                ("name".to_owned(), PgType::VarChar),
                ("flag".to_owned(), PgType::Bool),
                ("count".to_owned(), PgType::BigInt),
            ])),
            ok(QueryEvent::DataRow(vec![
                "0".to_owned(),
                "abc".to_owned(),
                "f".to_owned(),
                "-1234567890123".to_owned(),
            ])),
            ok(QueryEvent::DataRow(vec![
                "".to_owned(),
                "".to_owned(),
                "NULL".to_owned(),
                "18446744073709551615".to_owned(),
            ])),
            ok(QueryEvent::RecordsSelected(2)),
        ]
    );
    assert_eq!(
        executor.execute(
            Plan::Select(SelectInput {
                table_id,
                selected_columns: vec![2]
            }),
            &mut data_manager
        ),
        vec![
            ok(QueryEvent::RowDescription(vec![("name".to_owned(), PgType::VarChar)])),
            ok(QueryEvent::DataRow(vec!["abc".to_owned()])),
            ok(QueryEvent::DataRow(vec!["".to_owned()])),
            ok(QueryEvent::RecordsSelected(2)),
        ]
    );
}

#[test]
fn tables_that_are_missing_are_reported_by_their_handle() {
    let executor = QueryExecutor::new();
    let mut data_manager = DataManager::in_memory();
    let missing = || vec![Err(QueryError::table_does_not_exist("7.12".to_owned()))];
    let table_id = (7, 12);

    assert_eq!(
        executor.execute(Plan::Insert { table_id, rows: vec![] }, &mut data_manager),
        missing()
    );
    assert_eq!(
        executor.execute(
            Plan::Update {
                table_id,
                assignments: vec![]
            },
            &mut data_manager
        ),
        missing()
    );
    assert_eq!(
        executor.execute(Plan::Delete(TableDeletes { table_id, predicate: None }), &mut data_manager),
        missing()
    );
    assert_eq!(
        executor.execute(
            Plan::Select(SelectInput {
                table_id,
                selected_columns: vec![]
            }),
            &mut data_manager
        ),
        missing()
    );
    assert_eq!(DropTableCommand::new(table_id).execute(&mut data_manager), missing());
    assert_eq!(data_manager.full_scan(&table_id).is_err(), true);
}

#[test]
fn create_and_drop_tables() {
    let executor = QueryExecutor::new();
    let mut data_manager = DataManager::in_memory();
    let schema_id = data_manager.create_schema(SCHEMA).expect("schema created");
    let create = |if_not_exists: bool| Plan::CreateTable {
        schema_id,
        table_name: TABLE.to_owned(),
        columns: vec![ColumnDefinition::new("c", SqlType::Bool)],
        if_not_exists,
    };

    assert_eq!(
        executor.execute(create(false), &mut data_manager),
        vec![ok(QueryEvent::TableCreated)]
    );
    assert_eq!(
        executor.execute(create(false), &mut data_manager),
        vec![Err(QueryError::table_already_exists("t".to_owned()))]
    );
    assert_eq!(
        executor.execute(create(true), &mut data_manager),
        vec![ok(QueryEvent::TableCreated)]
    );
    assert_eq!(
        executor.execute(
            Plan::CreateTable {
                schema_id: 40,
                table_name: TABLE.to_owned(),
                columns: vec![],
                if_not_exists: false,
            },
            &mut data_manager
        ),
        vec![Err(QueryError::schema_does_not_exist("40".to_owned()))]
    );
    let table_id = (schema_id, 0);
    assert_eq!(
        data_manager.definitions().table_columns(0),
        vec![(0, ColumnDefinition::new("c", SqlType::Bool))]
    );
    assert_eq!(
        executor.execute(
            Plan::DropTables {
                table_ids: vec![table_id, table_id],
                cascade: false
            },
            &mut data_manager
        ),
        vec![
            ok(QueryEvent::TableDropped),
            Err(QueryError::table_does_not_exist("0.0".to_owned()))
        ]
    );
    assert_eq!(data_manager.definitions().table_columns(0), vec![]);
    assert_eq!(
        executor.execute(create(false), &mut data_manager),
        vec![ok(QueryEvent::TableCreated)]
    );
    assert_eq!(
        data_manager.definitions().table_exists("public", SCHEMA, TABLE),
        Some((0, Some((schema_id, Some(1)))))
    );
}

#[test]
fn dropping_a_schema_drops_its_tables_and_their_rows() {
    let executor = QueryExecutor::new();
    let (mut data_manager, table_id) = with_table(&[ColumnDefinition::new("c", SqlType::Bool)]);
    assert_eq!(
        data_manager.write_into(&table_id, vec![Binary::pack(&[Datum::from_bool(true)])]),
        Ok(1)
    );

    assert_eq!(
        executor.execute(drop_schema(SCHEMA), &mut data_manager),
        vec![ok(QueryEvent::SchemaDropped)]
    );
    assert_eq!(data_manager.full_scan(&table_id).is_err(), true);
    assert_eq!(data_manager.definitions().table_columns(table_id.1), vec![]);
    assert_eq!(
        executor.execute(create_schema(SCHEMA), &mut data_manager),
        vec![ok(QueryEvent::SchemaCreated)]
    );
    assert_eq!(data_manager.definitions().table_exists("public", SCHEMA, TABLE), Some((0, Some((1, None)))));
    let again = data_manager.create_table(SCHEMA, TABLE, &[]).expect("table created");
    assert_eq!(again, (1, 1));
    assert_eq!(rows(&data_manager, &again), vec![]);
}

#[test]
fn statements_of_the_session() {
    let executor = QueryExecutor::new();
    let mut data_manager = DataManager::in_memory();

    assert_eq!(
        executor.execute(Plan::NotProcessed(SessionStatement::SetVariable), &mut data_manager),
        vec![ok(QueryEvent::VariableSet)]
    );
    assert_eq!(
        executor.execute(Plan::NotProcessed(SessionStatement::Other), &mut data_manager),
        vec![ok(QueryEvent::QueryComplete)]
    );
}

#[test]
fn drops_and_deletes_are_planned_by_their_handles() {
    let executor = QueryExecutor::new();
    let (mut data_manager, table_id) = with_table(&[ColumnDefinition::new("c", SqlType::Bool)]);
    assert_eq!(
        data_manager.write_into(&table_id, vec![Binary::pack(&[Datum::from_bool(true)])]),
        Ok(1)
    );
    let planned = |data_manager: &DataManager, statement: sqlparser::ast::Statement| {
        let analysis = Analyzer::new(data_manager.definitions())
            .analyze(statement)
            .expect("analysed");
        QueryPlanner::new(data_manager.definitions())
            .plan(analysis)
            .expect("planned")
    };
    let name = || {
        sqlparser::ast::ObjectName(vec![sqlparser::ast::Ident::new(SCHEMA), sqlparser::ast::Ident::new(TABLE)])
    };

    let delete = planned(
        &data_manager,
        sqlparser::ast::Statement::Delete {
            table_name: name(),
            selection: None,
        },
    );
    assert_eq!(delete, Plan::Delete(TableDeletes { table_id, predicate: None }));
    assert_eq!(
        executor.execute(delete, &mut data_manager),
        vec![ok(QueryEvent::RecordsDeleted(1))]
    );
    let drop = planned(
        &data_manager,
        sqlparser::ast::Statement::Drop {
            object_type: sqlparser::ast::ObjectType::Table,
            if_exists: false,
            names: vec![name()],
            cascade: false,
        },
    );
    assert_eq!(
        drop,
        Plan::DropTables {
            table_ids: vec![table_id],
            cascade: false
        }
    );
    assert_eq!(executor.execute(drop, &mut data_manager), vec![ok(QueryEvent::TableDropped)]);
    assert_eq!(data_manager.full_scan(&table_id).is_err(), true);
}

#[test]
fn errors_of_the_analysis_become_planning_errors() {
    let text = || "x".to_owned();

    assert_eq!(
        QueryPlanner::error(AnalysisError::SchemaDoesNotExist(text())),
        PlanError::SchemaDoesNotExist(text())
    );
    assert_eq!(
        QueryPlanner::error(AnalysisError::TableDoesNotExist(text())),
        PlanError::TableDoesNotExist(text())
    );
    assert_eq!(
        QueryPlanner::error(AnalysisError::TableNamingError(text())),
        PlanError::TableNamingError(text())
    );
    assert_eq!(
        QueryPlanner::error(AnalysisError::TypeIsNotSupported(text())),
        PlanError::TypeIsNotSupported(text())
    );
    assert_eq!(
        QueryPlanner::error(AnalysisError::DuplicateColumn(text())),
        PlanError::DuplicateColumn(text())
    );
    assert_eq!(
        QueryPlanner::error(AnalysisError::ColumnDoesNotExist(text())),
        PlanError::ColumnDoesNotExist(text())
    );
    assert_eq!(
        QueryPlanner::error(AnalysisError::SyntaxError(text())),
        PlanError::SyntaxError(text())
    );
    assert_eq!(
        QueryPlanner::error(AnalysisError::FeatureNotSupported(text())),
        PlanError::FeatureNotSupported(text())
    );
}

#[test]
fn a_table_is_analysed_planned_and_created() {
    let executor = QueryExecutor::new();
    let mut data_manager = DataManager::in_memory();
    data_manager.create_schema(SCHEMA).expect("schema created");
    let parts = |if_not_exists: bool| CreateTableParts {
        name: vec![SCHEMA.to_owned(), TABLE.to_owned()],
        columns: vec![
            ("a".to_owned(), sqlparser::ast::DataType::Boolean),
            ("b".to_owned(), sqlparser::ast::DataType::Varchar(None)),
        ],
        if_not_exists,
    };
    let plan = |data_manager: &DataManager, if_not_exists: bool| {
        let analysis = Analyzer::new(data_manager.definitions())
            .analyze_create_table(&parts(if_not_exists))
            .expect("analysed");
        QueryPlanner::new(data_manager.definitions()).plan(analysis)
    };

    let planned = plan(&data_manager, false).expect("planned");
    assert_eq!(
        planned,
        Plan::CreateTable {
            schema_id: 0,
            table_name: TABLE.to_owned(),
            columns: vec![
                ColumnDefinition::new("a", SqlType::Bool),
                ColumnDefinition::new("b", SqlType::VarChar(255))
            ],
            if_not_exists: false,
        }
    );
    assert_eq!(executor.execute(planned, &mut data_manager), vec![ok(QueryEvent::TableCreated)]);
    assert_eq!(
        plan(&data_manager, false),
        Err(vec![PlanError::TableAlreadyExists("s.t".to_owned())])
    );
    let planned = plan(&data_manager, true).expect("planned");
    assert_eq!(executor.execute(planned, &mut data_manager), vec![ok(QueryEvent::TableCreated)]);
}

fn written(text: &str) -> Literal {
    Literal::Number {
        negative: false,
        text: text.to_owned(),
    }
}

fn negative(text: &str) -> Literal {
    Literal::Number {
        negative: true,
        text: text.to_owned(),
    }
}

#[test]
fn digits_write_numbers() {
    assert_eq!(parse_digits("0"), ParsedDigits::Value(0));
    assert_eq!(parse_digits("007"), ParsedDigits::Value(7));
    assert_eq!(parse_digits("1234567890"), ParsedDigits::Value(1234567890));
    assert_eq!(parse_digits("18446744073709551615"), ParsedDigits::Value(u64::MAX));
    assert_eq!(parse_digits("18446744073709551616"), ParsedDigits::TooLarge);
    assert_eq!(parse_digits("99999999999999999999999"), ParsedDigits::TooLarge);
    assert_eq!(parse_digits("999999999999999999999x"), ParsedDigits::Invalid);
    assert_eq!(parse_digits(""), ParsedDigits::Invalid);
    assert_eq!(parse_digits("1.5"), ParsedDigits::Invalid);
    assert_eq!(parse_digits("-1"), ParsedDigits::Invalid);
    assert_eq!(parse_digits("١٢"), ParsedDigits::Invalid);
}

#[test]
fn values_become_datums_of_their_columns() {
    assert_eq!(coerce(&Literal::Null, &SqlType::Real), Ok(Datum::from_null()));
    assert_eq!(coerce(&Literal::Null, &SqlType::Char(0)), Ok(Datum::from_null()));
    assert_eq!(coerce(&Literal::Bool(true), &SqlType::Bool), Ok(Datum::from_bool(true)));
    assert_eq!(coerce(&written("32767"), &SqlType::SmallInt), Ok(Datum::from_i16(32767)));
    assert_eq!(coerce(&negative("32768"), &SqlType::SmallInt), Ok(Datum::from_i16(-32768)));
    assert_eq!(coerce(&negative("0"), &SqlType::SmallInt), Ok(Datum::from_i16(0)));
    assert_eq!(coerce(&written("2147483647"), &SqlType::Integer), Ok(Datum::from_i32(i32::MAX)));
    assert_eq!(coerce(&negative("2147483648"), &SqlType::Integer), Ok(Datum::from_i32(i32::MIN)));
    assert_eq!(
        coerce(&written("9223372036854775807"), &SqlType::BigInt),
        Ok(Datum::from_i64(i64::MAX))
    );
    assert_eq!(
        coerce(&negative("9223372036854775808"), &SqlType::BigInt),
        Ok(Datum::from_i64(i64::MIN))
    );
    assert_eq!(
        coerce(&Literal::Text("abc".to_owned()), &SqlType::Char(3)),
        Ok(Datum::from_str("abc"))
    );
    assert_eq!(
        coerce(&Literal::Text("äöü".to_owned()), &SqlType::VarChar(3)),
        Ok(Datum::from_str("äöü"))
    );
    assert_eq!(coerce(&Literal::Text("".to_owned()), &SqlType::VarChar(0)), Ok(Datum::from_str("")));
}

#[test]
fn values_that_are_no_values_of_their_columns() {
    assert_eq!(coerce(&written("32768"), &SqlType::SmallInt), Err(CoercionError::OutOfRange));
    assert_eq!(coerce(&negative("32769"), &SqlType::SmallInt), Err(CoercionError::OutOfRange));
    assert_eq!(coerce(&written("2147483648"), &SqlType::Integer), Err(CoercionError::OutOfRange));
    assert_eq!(
        coerce(&written("9223372036854775808"), &SqlType::BigInt),
        Err(CoercionError::OutOfRange)
    );
    assert_eq!(
        coerce(&negative("9223372036854775809"), &SqlType::BigInt),
        Err(CoercionError::OutOfRange)
    );
    assert_eq!(
        coerce(&written("99999999999999999999999999"), &SqlType::BigInt),
        Err(CoercionError::OutOfRange)
    );
    assert_eq!(coerce(&written("1.5"), &SqlType::Integer), Err(CoercionError::InvalidInput));
    assert_eq!(coerce(&written(""), &SqlType::Integer), Err(CoercionError::InvalidInput));
    assert_eq!(coerce(&Literal::Bool(true), &SqlType::Integer), Err(CoercionError::InvalidInput));
    assert_eq!(
        coerce(&Literal::Text("1".to_owned()), &SqlType::Integer),
        Err(CoercionError::InvalidInput)
    );
    assert_eq!(coerce(&written("1"), &SqlType::Bool), Err(CoercionError::InvalidInput));
    assert_eq!(coerce(&written("1"), &SqlType::Char(9)), Err(CoercionError::InvalidInput));
    assert_eq!(
        coerce(&Literal::Text("abcd".to_owned()), &SqlType::VarChar(3)),
        Err(CoercionError::TooLong)
    );
    assert_eq!(coerce(&written("1"), &SqlType::Real), Err(CoercionError::NotSupported));
    assert_eq!(
        coerce(&Literal::Bool(true), &SqlType::DoublePrecision),
        Err(CoercionError::NotSupported)
    );
    assert_eq!(coerce(&Literal::Other, &SqlType::Bool), Err(CoercionError::NotSupported));
}

#[test]
fn problems_of_an_insert_are_reported() {
    let text = |message: &str| PlanError::SyntaxError(message.to_owned());

    assert_eq!(
        report(InsertProblem::ValueCount {
            expected: 2,
            actual: 13
        }),
        text("expected 2 values, but got 13")
    );
    assert_eq!(
        report(InsertProblem::Value {
            error: CoercionError::InvalidInput,
            sql_type: SqlType::SmallInt
        }),
        text("invalid input syntax for type smallint")
    );
    assert_eq!(
        report(InsertProblem::Value {
            error: CoercionError::OutOfRange,
            sql_type: SqlType::BigInt
        }),
        text("bigint out of range")
    );
    assert_eq!(
        report(InsertProblem::Value {
            error: CoercionError::TooLong,
            sql_type: SqlType::VarChar(5)
        }),
        text("value too long for type varchar(5)")
    );
    assert_eq!(
        report(InsertProblem::Value {
            error: CoercionError::NotSupported,
            sql_type: SqlType::DoublePrecision
        }),
        PlanError::FeatureNotSupported("double precision".to_owned())
    );
    assert_eq!(
        coerce_row(&vec![written("1")], &vec![SqlType::Bool, SqlType::Bool]),
        Err(InsertProblem::ValueCount {
            expected: 2,
            actual: 1
        })
    );
    assert_eq!(
        coerce_row(
            &vec![Literal::Bool(true), written("x"), Literal::Other],
            &vec![SqlType::Bool, SqlType::Integer, SqlType::Bool]
        ),
        Err(InsertProblem::Value {
            error: CoercionError::InvalidInput,
            sql_type: SqlType::Integer
        })
    );
}

#[test]
fn an_insert_is_planned_with_its_values_as_datums() {
    let executor = QueryExecutor::new();
    let (mut data_manager, table_id) = with_table(&[
        ColumnDefinition::new("flag", SqlType::Bool),
        ColumnDefinition::new("count", SqlType::Integer),
    ]);
    let insert = |rows: Vec<Vec<Literal>>| {
        QueryAnalysis::Write(Write::Insert(InsertQuery {
            table_id,
            sql_types: vec![SqlType::Bool, SqlType::Integer],
            rows,
        }))
    };

    let planned = QueryPlanner::new(data_manager.definitions())
        .plan(insert(vec![
            vec![Literal::Bool(true), negative("5")],
            vec![Literal::Null, written("6")],
        ]))
        .expect("planned");
    assert_eq!(
        planned,
        Plan::Insert {
            table_id,
            rows: vec![
                vec![Datum::from_bool(true), Datum::from_i32(-5)],
                vec![Datum::from_null(), Datum::from_i32(6)]
            ]
        }
    );
    assert_eq!(
        executor.execute(planned, &mut data_manager),
        vec![ok(QueryEvent::RecordsInserted(2))]
    );
    assert_eq!(
        rows(&data_manager, &table_id),
        vec![
            (
                Binary::record_key(0),
                Binary::pack(&[Datum::from_bool(true), Datum::from_i32(-5)])
            ),
            (
                Binary::record_key(1),
                Binary::pack(&[Datum::from_null(), Datum::from_i32(6)])
            ),
        ]
    );
    assert_eq!(
        QueryPlanner::new(data_manager.definitions()).plan(insert(vec![
            vec![Literal::Bool(true), written("5")],
            vec![Literal::Bool(true)],
            vec![written("5"), written("5")],
        ])),
        Err(vec![PlanError::SyntaxError("expected 2 values, but got 1".to_owned())])
    );
    assert_eq!(
        QueryPlanner::new(data_manager.definitions()).plan(insert(vec![vec![
            Literal::Bool(true),
            written("2147483648")
        ]])),
        Err(vec![PlanError::SyntaxError("integer out of range".to_owned())])
    );
}

#[test]
fn a_schema_is_planned_unless_it_exists() {
    let executor = QueryExecutor::new();
    let mut data_manager = DataManager::in_memory();
    let create = |if_not_exists: bool| {
        QueryAnalysis::DataDefinition(SchemaChange::CreateSchema(CreateSchemaQuery {
            schema_name: SCHEMA.to_owned(),
            if_not_exists,
        }))
    };

    let planned = QueryPlanner::new(data_manager.definitions())
        .plan(create(false))
        .expect("planned");
    assert_eq!(planned, create_schema(SCHEMA));
    assert_eq!(executor.execute(planned, &mut data_manager), vec![ok(QueryEvent::SchemaCreated)]);
    assert_eq!(
        QueryPlanner::new(data_manager.definitions()).plan(create(false)),
        Err(vec![PlanError::SchemaAlreadyExists("s".to_owned())])
    );
    assert_eq!(
        QueryPlanner::new(data_manager.definitions()).plan(create(true)),
        Ok(Plan::CreateSchema {
            schema_name: SCHEMA.to_owned(),
            if_not_exists: true
        })
    );
}

fn column(name: &str) -> Box<ScalarOp> {
    Box::new(ScalarOp::Column(name.to_owned()))
}

fn number(value: i64) -> Box<ScalarOp> {
    Box::new(ScalarOp::Value(ScalarValue::Number(BigDecimal::from(value))))
}

fn three_rows() -> (DataManager, (u64, u64)) {
    let (mut data_manager, table_id) = with_table(&[
        ColumnDefinition::new("a", SqlType::Integer),
        ColumnDefinition::new("b", SqlType::VarChar(10)),
    ]);
    let stored = data_manager.write_into(
        &table_id,
        vec![
            Binary::pack(&[Datum::from_i32(1), Datum::from_string("x".to_owned())]),
            Binary::pack(&[Datum::from_i32(2), Datum::from_string("y".to_owned())]),
            Binary::pack(&[Datum::from_i32(3), Datum::from_string("x".to_owned())]),
        ],
    );
    assert_eq!(stored, Ok(3));
    (data_manager, table_id)
}

#[test]
fn delete_removes_the_rows_of_which_the_expression_holds() {
    let (mut data_manager, table_id) = three_rows();
    let predicate = ScalarOp::Binary(BinaryOp::Gt, column("a"), number(1));

    assert_eq!(
        QueryExecutor::new().execute(
            Plan::Delete(TableDeletes { table_id, predicate: Some(predicate) }),
            &mut data_manager
        ),
        vec![ok(QueryEvent::RecordsDeleted(2))]
    );
    assert_eq!(
        rows(&data_manager, &table_id),
        vec![(
            Binary::pack(&[Datum::from_u64(0)]),
            Binary::pack(&[Datum::from_i32(1), Datum::from_string("x".to_owned())])
        )]
    );
}

#[test]
fn delete_chooses_rows_by_a_column_of_text() {
    let (mut data_manager, table_id) = three_rows();
    let predicate = ScalarOp::Binary(
        BinaryOp::Eq,
        column("b"),
        Box::new(ScalarOp::Value(ScalarValue::String("x".to_owned()))),
    );

    assert_eq!(
        DeleteCommand::new(TableDeletes { table_id, predicate: Some(predicate) })
            .execute(&mut data_manager),
        vec![ok(QueryEvent::RecordsDeleted(2))]
    );
    assert_eq!(
        rows(&data_manager, &table_id),
        vec![(
            Binary::pack(&[Datum::from_u64(1)]),
            Binary::pack(&[Datum::from_i32(2), Datum::from_string("y".to_owned())])
        )]
    );
}

#[test]
fn delete_of_no_row_where_the_expression_holds_of_none() {
    let (mut data_manager, table_id) = three_rows();
    let before = rows(&data_manager, &table_id);

    let never = ScalarOp::Binary(BinaryOp::Lt, column("a"), number(0));
    assert_eq!(
        DeleteCommand::new(TableDeletes { table_id, predicate: Some(never) })
            .execute(&mut data_manager),
        vec![ok(QueryEvent::RecordsDeleted(0))]
    );
    let no_truth = ScalarOp::Binary(BinaryOp::Add, column("a"), number(1));
    assert_eq!(
        DeleteCommand::new(TableDeletes { table_id, predicate: Some(no_truth) })
            .execute(&mut data_manager),
        vec![ok(QueryEvent::RecordsDeleted(0))]
    );
    assert_eq!(rows(&data_manager, &table_id), before);
}

#[test]
fn delete_removes_nothing_where_the_expression_has_no_value() {
    let (mut data_manager, table_id) = three_rows();
    let before = rows(&data_manager, &table_id);

    let unknown = ScalarOp::Binary(BinaryOp::Eq, column("c"), number(1));
    assert_eq!(
        DeleteCommand::new(TableDeletes { table_id, predicate: Some(unknown) })
            .execute(&mut data_manager),
        vec![Err(QueryError::column_does_not_exist("c".to_owned()))]
    );
    let mixed = ScalarOp::Binary(BinaryOp::Add, column("a"), column("b"));
    assert_eq!(
        DeleteCommand::new(TableDeletes { table_id, predicate: Some(mixed) })
            .execute(&mut data_manager),
        vec![Err(QueryError::undefined_function(
            "+".to_owned(),
            "NUMBER".to_owned(),
            "STRING".to_owned()
        ))]
    );
    let by_zero = ScalarOp::Binary(
        BinaryOp::Eq,
        Box::new(ScalarOp::Binary(BinaryOp::Div, column("a"), number(0))),
        number(1),
    );
    assert_eq!(
        DeleteCommand::new(TableDeletes { table_id, predicate: Some(by_zero) })
            .execute(&mut data_manager),
        vec![Err(QueryError::invalid_parameter_value("division by zero".to_owned()))]
    );
    assert_eq!(rows(&data_manager, &table_id), before);
}

#[test]
fn delete_with_an_expression_on_a_table_that_is_missing() {
    let mut data_manager = DataManager::in_memory();
    let predicate = ScalarOp::Binary(BinaryOp::Gt, column("a"), number(1));

    assert_eq!(
        DeleteCommand::new(TableDeletes { table_id: (3, 4), predicate: Some(predicate) })
            .execute(&mut data_manager),
        vec![Err(QueryError::table_does_not_exist("3.4".to_owned()))]
    );
}

fn text(value: &str) -> Box<ScalarOp> {
    Box::new(ScalarOp::Value(ScalarValue::String(value.to_owned())))
}

fn decimal(value: &str) -> Box<ScalarOp> {
    Box::new(ScalarOp::Value(ScalarValue::Number(value.parse::<BigDecimal>().expect("a number"))))
}

fn update(table_id: (u64, u64), ordinal: u64, sql_type: SqlType, op: ScalarOp) -> Plan {
    Plan::Update {
        table_id,
        assignments: vec![(ordinal, sql_type, op)],
    }
}

#[test]
fn update_stores_the_values_of_expressions() {
    let executor = QueryExecutor::new();
    let (mut data_manager, table_id) = three_rows();

    assert_eq!(
        executor.execute(
            update(table_id, 1, SqlType::VarChar(10), ScalarOp::Binary(BinaryOp::Concat, text("str-1"), text("str-2"))),
            &mut data_manager
        ),
        vec![ok(QueryEvent::RecordsUpdated(3))]
    );
    assert_eq!(
        executor.execute(
            update(table_id, 0, SqlType::Integer, ScalarOp::Binary(BinaryOp::Mod, decimal("20"), decimal("3"))),
            &mut data_manager
        ),
        vec![ok(QueryEvent::RecordsUpdated(3))]
    );
    let stored = Binary::pack(&[Datum::from_i32(2), Datum::from_string("str-1str-2".to_owned())]);
    assert_eq!(
        rows(&data_manager, &table_id),
        vec![
            (Binary::record_key(0), stored.copy()),
            (Binary::record_key(1), stored.copy()),
            (Binary::record_key(2), stored),
        ]
    );
}

#[test]
fn update_evaluates_each_expression_for_the_row_as_it_was() {
    let executor = QueryExecutor::new();
    let (mut data_manager, table_id) = three_rows();

    assert_eq!(
        executor.execute(
            Plan::Update {
                table_id,
                assignments: vec![
                    (0, SqlType::Integer, ScalarOp::Binary(BinaryOp::Mul, column("a"), number(10))),
                    (1, SqlType::VarChar(10), ScalarOp::Binary(BinaryOp::Concat, column("b"), column("b"))),
                    (0, SqlType::Integer, ScalarOp::Binary(BinaryOp::Add, column("a"), number(1))),
                ],
            },
            &mut data_manager
        ),
        vec![ok(QueryEvent::RecordsUpdated(3))]
    );
    assert_eq!(
        rows(&data_manager, &table_id),
        vec![
            (Binary::record_key(0), Binary::pack(&[Datum::from_i32(2), Datum::from_string("xx".to_owned())])),
            (Binary::record_key(1), Binary::pack(&[Datum::from_i32(3), Datum::from_string("yy".to_owned())])),
            (Binary::record_key(2), Binary::pack(&[Datum::from_i32(4), Datum::from_string("xx".to_owned())])),
        ]
    );
}

#[test]
fn update_changes_no_row_where_an_expression_fails() {
    let executor = QueryExecutor::new();
    let (mut data_manager, table_id) = three_rows();
    let before = rows(&data_manager, &table_id);

    assert_eq!(
        executor.execute(
            update(table_id, 1, SqlType::VarChar(10), ScalarOp::Binary(BinaryOp::Add, text("str-1"), text("str-2"))),
            &mut data_manager
        ),
        vec![Err(QueryError::undefined_function(
            "+".to_owned(),
            "STRING".to_owned(),
            "STRING".to_owned()
        ))]
    );
    assert_eq!(
        executor.execute(
            update(table_id, 0, SqlType::Integer, ScalarOp::Binary(BinaryOp::BitwiseAnd, decimal("20.1"), decimal("5.2"))),
            &mut data_manager
        ),
        vec![Err(QueryError::undefined_function(
            "&".to_owned(),
            "FLOAT".to_owned(),
            "FLOAT".to_owned()
        ))]
    );
    assert_eq!(
        executor.execute(
            update(table_id, 0, SqlType::Integer, ScalarOp::Binary(BinaryOp::Div, number(6), ScalarOp::Binary(BinaryOp::Sub, column("a"), number(2)).into())),
            &mut data_manager
        ),
        vec![Err(QueryError::invalid_parameter_value("division by zero".to_owned()))]
    );
    assert_eq!(
        executor.execute(update(table_id, 0, SqlType::Integer, *decimal("1.5")), &mut data_manager),
        vec![Err(QueryError::syntax_error("invalid input syntax for type integer".to_owned()))]
    );
    assert_eq!(
        executor.execute(update(table_id, 0, SqlType::SmallInt, *number(40000)), &mut data_manager),
        vec![Err(QueryError::syntax_error("smallint out of range".to_owned()))]
    );
    assert_eq!(
        executor.execute(update(table_id, 0, SqlType::Integer, *text("1")), &mut data_manager),
        vec![Err(QueryError::syntax_error("invalid input syntax for type integer".to_owned()))]
    );
    assert_eq!(
        executor.execute(update(table_id, 1, SqlType::VarChar(2), *text("abc")), &mut data_manager),
        vec![Err(QueryError::syntax_error("value too long for type varchar(2)".to_owned()))]
    );
    assert_eq!(rows(&data_manager, &table_id), before);
}

#[test]
fn values_of_expressions_become_datums_of_their_columns() {
    let value = |text: &str| ScalarValue::Number(text.parse::<BigDecimal>().expect("a number"));

    assert_eq!(coerce_value(&ScalarValue::Null, &SqlType::Bool), Ok(Datum::from_null()));
    assert_eq!(coerce_value(&ScalarValue::Bool(true), &SqlType::Bool), Ok(Datum::from_bool(true)));
    assert_eq!(coerce_value(&ScalarValue::Bool(true), &SqlType::Integer), Err(CoercionError::InvalidInput));
    assert_eq!(coerce_value(&value("2"), &SqlType::SmallInt), Ok(Datum::from_i16(2)));
    assert_eq!(coerce_value(&value("2.00"), &SqlType::Integer), Ok(Datum::from_i32(2)));
    assert_eq!(coerce_value(&value("-32768"), &SqlType::SmallInt), Ok(Datum::from_i16(i16::MIN)));
    assert_eq!(coerce_value(&value("32768"), &SqlType::SmallInt), Err(CoercionError::OutOfRange));
    assert_eq!(coerce_value(&value("2147483648"), &SqlType::Integer), Err(CoercionError::OutOfRange));
    assert_eq!(
        coerce_value(&value("9223372036854775807"), &SqlType::BigInt),
        Ok(Datum::from_i64(i64::MAX))
    );
    assert_eq!(coerce_value(&value("9223372036854775808"), &SqlType::BigInt), Err(CoercionError::OutOfRange));
    assert_eq!(coerce_value(&value("0.5"), &SqlType::BigInt), Err(CoercionError::InvalidInput));
    assert_eq!(coerce_value(&value("1"), &SqlType::Real), Err(CoercionError::NotSupported));
    assert_eq!(coerce_value(&value("1"), &SqlType::VarChar(5)), Err(CoercionError::InvalidInput));
    assert_eq!(
        coerce_value(&ScalarValue::String("ab".to_owned()), &SqlType::Char(2)),
        Ok(Datum::from_str("ab"))
    );
    assert_eq!(
        coerce_value(&ScalarValue::String("abc".to_owned()), &SqlType::Char(2)),
        Err(CoercionError::TooLong)
    );
}
