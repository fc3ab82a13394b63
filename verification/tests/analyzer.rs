use sql_engine::analyzer::{
    AnalysisError, Analyzer, ColumnInfo, CreateSchemaQuery, CreateTableQuery, Description, DescriptionError,
    DropSchemasQuery, DropTablesQuery, InsertQuery, InsertStatement, QueryAnalysis, SchemaChange, TableInfo,
    Write,
};
use sql_engine::statement::{CreateTableParts, Literal, SessionStatement};
use sql_engine::data_manager::DataManager;
use sql_engine::metadata::{ColumnDefinition, DataDefinition, FullTableId, DEFAULT_CATALOG};
use sql_engine::sql_types::SqlType;
use bigdecimal::BigDecimal;
use sql_engine::expr_eval::{BinaryOp, ScalarOp, ScalarValue, UnaryOp};
use sql_engine::expression::{operator_by_sign, read_expression, unary_operator_by_sign, value_written, MAX_DEPTH};
use sqlparser::ast::{BinaryOperator, Expr, Ident, ObjectName, Query, SetExpr, Statement, UnaryOperator, Value, Values};

const SCHEMA: &str = "schema_name";
const TABLE: &str = "table_name";

fn ident<S: ToString>(name: S) -> Ident {
    Ident {
        value: name.to_string(),
        quote_style: None,
    }
}

fn insert_stmt_with_values<S: ToString>(schema: S, table: S, values: Vec<&'static str>) -> Statement {
    Statement::Insert {
        table_name: ObjectName(vec![ident(schema), ident(table)]),
        columns: vec![],
        source: Box::new(Query {
            ctes: vec![],
            body: SetExpr::Values(Values(vec![values
                .into_iter()
                .map(|s| Expr::Value(Value::Number(s.parse().unwrap())))
                .collect()])),
            order_by: vec![],
            limit: None,
            offset: None,
            fetch: None,
        }),
    }
}

fn insert_statement<S: ToString>(schema: S, table: S) -> Statement {
    insert_stmt_with_values(schema, table, vec![])
}

#[test]
fn insert_into_table_under_non_existing_schema() {
    let mut metadata = DataDefinition::in_memory();
    metadata.create_catalog(DEFAULT_CATALOG);
    let analyzer = Analyzer::new(&metadata);
    let description = analyzer.describe(&insert_statement("non_existent_schema", "non_existent_table"));

    assert_eq!(
        description,
        Err(DescriptionError::schema_does_not_exist(&"non_existent_schema"))
    )
}

#[test]
fn insert_into_non_existing_table() {
    let mut metadata = DataDefinition::in_memory();
    metadata.create_catalog(DEFAULT_CATALOG);
    metadata.create_schema(DEFAULT_CATALOG, SCHEMA);
    let analyzer = Analyzer::new(&metadata);
    let description = analyzer.describe(&insert_statement(SCHEMA, "non_existent"));

    assert_eq!(
        description,
        Err(DescriptionError::table_does_not_exist(&format!(
            "{}.{}",
            SCHEMA, "non_existent"
        )))
    );
}

#[test]
fn insert_into_existing_table_without_columns() {
    let mut metadata = DataDefinition::in_memory();
    metadata.create_catalog(DEFAULT_CATALOG);
    let schema_id = match metadata.create_schema(DEFAULT_CATALOG, SCHEMA) {
        Some((_, Some(schema_id))) => schema_id,
        _ => panic!(),
    };
    let table_id = match metadata.create_table(DEFAULT_CATALOG, SCHEMA, TABLE, &[]) {
        Some((_, Some((_, Some(table_id))))) => table_id,
        _ => panic!(),
    };
    let analyzer = Analyzer::new(&metadata);
    let description = analyzer.describe(&insert_statement(SCHEMA, TABLE));

    assert_eq!(
        description,
        Ok(Description::Insert(InsertStatement {
            table_id: FullTableId::from((schema_id, table_id)),
            sql_types: vec![]
        }))
    );
}

#[test]
fn insert_into_existing_table_with_column() {
    let mut metadata = DataDefinition::in_memory();
    metadata.create_catalog(DEFAULT_CATALOG);
    let schema_id = match metadata.create_schema(DEFAULT_CATALOG, SCHEMA) {
        Some((_, Some(schema_id))) => schema_id,
        _ => panic!(),
    };
    let table_id = match metadata.create_table(
        DEFAULT_CATALOG,
        SCHEMA,
        TABLE,
        &[ColumnDefinition::new("col", SqlType::SmallInt)],
    ) {
        Some((_, Some((_, Some(table_id))))) => table_id,
        _ => panic!(),
    };
    let analyzer = Analyzer::new(&metadata);
    let description = analyzer.describe(&insert_stmt_with_values(SCHEMA, TABLE, vec!["1"]));

    assert_eq!(
        description,
        Ok(Description::Insert(InsertStatement {
            table_id: FullTableId::from((schema_id, table_id)),
            sql_types: vec![SqlType::SmallInt]
        }))
    );
}

#[test]
fn statements_that_are_no_insert_are_not_described() {
    let metadata = DataDefinition::in_memory();
    let analyzer = Analyzer::new(&metadata);

    assert_eq!(
        analyzer.try_describe(&Statement::Commit { chain: false }),
        None
    );
    assert_eq!(
        analyzer.try_describe(&Statement::Insert {
            table_name: ObjectName(vec![ident("only_table")]),
            columns: vec![],
            source: Box::new(Query {
                ctes: vec![],
                body: SetExpr::Values(Values(vec![])),
                order_by: vec![],
                limit: None,
                offset: None,
                fetch: None,
            }),
        }),
        None
    );
    assert_eq!(
        analyzer.try_describe(&insert_statement(SCHEMA, TABLE)),
        Some(Err(DescriptionError::schema_does_not_exist(SCHEMA)))
    );
}

fn sql_ident(name: &str) -> Ident {
    ident(name)
}

fn column(name: &str, data_type: sqlparser::ast::DataType) -> sqlparser::ast::ColumnDef {
    sqlparser::ast::ColumnDef {
        name: sql_ident(name),
        data_type,
        collation: None,
        options: vec![],
    }
}

fn create_table_if_not_exists(
    name: Vec<&str>,
    columns: Vec<sqlparser::ast::ColumnDef>,
    if_not_exists: bool,
) -> sqlparser::ast::Statement {
    sqlparser::ast::Statement::CreateTable {
        name: sqlparser::ast::ObjectName(name.into_iter().map(sql_ident).collect()),
        columns,
        constraints: vec![],
        with_options: vec![],
        if_not_exists,
        external: false,
        file_format: None,
        location: None,
        query: None,
        without_rowid: false,
    }
}

fn create_table(name: Vec<&str>, columns: Vec<sqlparser::ast::ColumnDef>) -> sqlparser::ast::Statement {
    create_table_if_not_exists(name, columns, false)
}

#[test]
fn create_table_with_nonexistent_schema() {
    let data_definition = DataManager::in_memory();
    let analyzer = Analyzer::new(data_definition.definitions());

    assert_eq!(
        analyzer.analyze(create_table(vec!["non_existent_schema", "non_existent_table"], vec![])),
        Err(AnalysisError::schema_does_not_exist(&"non_existent_schema"))
    );
}

#[test]
fn create_table_with_unqualified_name() {
    let mut data_definition = DataManager::in_memory();
    data_definition.create_schema(SCHEMA).expect("schema created");
    let analyzer = Analyzer::new(data_definition.definitions());
    assert_eq!(
        analyzer.analyze(create_table(vec!["only_schema_in_the_name"], vec![])),
        Err(AnalysisError::table_naming_error(
            &"Unsupported table name 'only_schema_in_the_name'. All table names must be qualified",
        ))
    );
}

#[test]
fn create_table_with_unsupported_name() {
    let mut data_definition = DataManager::in_memory();
    data_definition.create_schema(SCHEMA).expect("schema created");
    let analyzer = Analyzer::new(data_definition.definitions());
    assert_eq!(
        analyzer.analyze(create_table(
            vec!["first_part", "second_part", "third_part", "fourth_part"],
            vec![],
        )),
        Err(AnalysisError::table_naming_error(
            &"Unable to process table name 'first_part.second_part.third_part.fourth_part'"
        ))
    );
}

#[test]
fn create_table_with_unsupported_column_type() {
    let mut data_definition = DataManager::in_memory();
    data_definition.create_schema(SCHEMA).expect("schema created");
    let analyzer = Analyzer::new(data_definition.definitions());
    assert_eq!(
        analyzer.analyze(create_table(
            vec![SCHEMA, TABLE],
            vec![column(
                "column_name",
                sqlparser::ast::DataType::Custom(sqlparser::ast::ObjectName(vec![sql_ident(
                    "strange_type_name_whatever"
                )])),
            )],
        )),
        Err(AnalysisError::type_is_not_supported(&"strange_type_name_whatever"))
    );
}

#[test]
fn create_table_with_the_same_name() {
    let mut data_definition = DataManager::in_memory();
    data_definition.create_schema(SCHEMA).expect("schema created");
    data_definition
        .create_table(SCHEMA, TABLE, &[])
        .expect("table created");
    let analyzer = Analyzer::new(data_definition.definitions());

    assert_eq!(
        analyzer.analyze(create_table(vec![SCHEMA, TABLE], vec![])),
        Ok(QueryAnalysis::DataDefinition(SchemaChange::CreateTable(
            CreateTableQuery {
                table_info: TableInfo::new(0, &SCHEMA, &TABLE),
                column_defs: vec![],
                if_not_exists: false,
            }
        )))
    );
}

#[test]
fn create_new_table_if_not_exist() {
    let mut data_definition = DataManager::in_memory();
    data_definition.create_schema(SCHEMA).expect("schema created");
    let analyzer = Analyzer::new(data_definition.definitions());
    assert_eq!(
        analyzer.analyze(create_table_if_not_exists(
            vec![SCHEMA, TABLE],
            vec![column("column_name", sqlparser::ast::DataType::SmallInt)],
            true
        )),
        Ok(QueryAnalysis::DataDefinition(SchemaChange::CreateTable(
            CreateTableQuery {
                table_info: TableInfo::new(0, &SCHEMA, &TABLE),
                column_defs: vec![ColumnInfo {
                    name: "column_name".to_owned(),
                    sql_type: SqlType::SmallInt
                }],
                if_not_exists: true,
            }
        )))
    );
}

#[test]
fn successfully_create_table() {
    let mut data_definition = DataManager::in_memory();
    data_definition.create_schema(SCHEMA).expect("schema created");
    let analyzer = Analyzer::new(data_definition.definitions());
    assert_eq!(
        analyzer.analyze(create_table(
            vec![SCHEMA, TABLE],
            vec![column("column_name", sqlparser::ast::DataType::SmallInt)],
        )),
        Ok(QueryAnalysis::DataDefinition(SchemaChange::CreateTable(
            CreateTableQuery {
                table_info: TableInfo::new(0, &SCHEMA, &TABLE),
                column_defs: vec![ColumnInfo {
                    name: "column_name".to_owned(),
                    sql_type: SqlType::SmallInt
                }],
                if_not_exists: false,
            }
        )))
    );
}

#[test]
fn create_table_stops_at_the_first_unsupported_column() {
    let mut data_definition = DataManager::in_memory();
    data_definition.create_schema(SCHEMA).expect("schema created");
    let analyzer = Analyzer::new(data_definition.definitions());
    let custom = |parts: Vec<&str>| {
        sqlparser::ast::DataType::Custom(sqlparser::ast::ObjectName(parts.into_iter().map(sql_ident).collect()))
    };
    assert_eq!(
        analyzer.analyze(create_table(
            vec![SCHEMA, TABLE],
            vec![
                column("a", sqlparser::ast::DataType::Int),
                column("b", custom(vec!["first", "second"])),
                column("c", custom(vec!["third"])),
            ],
        )),
        Err(AnalysisError::type_is_not_supported("first.second"))
    );
    assert_eq!(
        analyzer.analyze(create_table(
            vec![SCHEMA, TABLE],
            vec![column("a", sqlparser::ast::DataType::Uuid)],
        )),
        Err(AnalysisError::type_is_not_supported("unknown"))
    );
}

#[test]
fn create_table_without_a_name_is_not_processed() {
    let data_definition = DataManager::in_memory();
    let analyzer = Analyzer::new(data_definition.definitions());
    assert_eq!(
        analyzer.analyze_create_table(&CreateTableParts {
            name: vec![],
            columns: vec![],
            if_not_exists: false,
        }),
        Err(AnalysisError::table_naming_error("Unable to process table name ''"))
    );
}

#[test]
fn other_statements_are_not_supported() {
    let data_definition = DataManager::in_memory();
    let analyzer = Analyzer::new(data_definition.definitions());
    assert_eq!(
        analyzer.analyze(sqlparser::ast::Statement::Drop {
            object_type: sqlparser::ast::ObjectType::View,
            if_exists: false,
            names: vec![],
            cascade: false,
        }),
        Err(AnalysisError::FeatureNotSupported("statement".to_owned()))
    );
    assert_eq!(
        analyzer.analyze(Statement::ShowVariable { variable: ident("x") }),
        Err(AnalysisError::FeatureNotSupported("statement".to_owned()))
    );
}

fn drop_tables(names: Vec<Vec<&str>>, if_exists: bool) -> sqlparser::ast::Statement {
    sqlparser::ast::Statement::Drop {
        object_type: sqlparser::ast::ObjectType::Table,
        if_exists,
        names: names
            .into_iter()
            .map(|name| sqlparser::ast::ObjectName(name.into_iter().map(sql_ident).collect()))
            .collect(),
        cascade: true,
    }
}

fn delete(name: Vec<&str>, selection: Option<sqlparser::ast::Expr>) -> sqlparser::ast::Statement {
    sqlparser::ast::Statement::Delete {
        table_name: sqlparser::ast::ObjectName(name.into_iter().map(sql_ident).collect()),
        selection,
    }
}

fn with_two_tables() -> DataManager {
    let mut data_manager = DataManager::in_memory();
    data_manager.create_schema("other").expect("schema created");
    data_manager.create_schema(SCHEMA).expect("schema created");
    data_manager.create_table(SCHEMA, "first", &[]).expect("table created");
    data_manager.create_table(SCHEMA, TABLE, &[]).expect("table created");
    data_manager
}

#[test]
fn tables_to_drop_are_resolved_in_order() {
    let data_manager = with_two_tables();
    let analyzer = Analyzer::new(data_manager.definitions());

    assert_eq!(
        analyzer.analyze(drop_tables(vec![vec![SCHEMA, TABLE], vec![SCHEMA, "first"]], false)),
        Ok(QueryAnalysis::DataDefinition(SchemaChange::DropTables(DropTablesQuery {
            table_ids: vec![(1, 1), (1, 0)],
            cascade: true,
            if_exists: false,
        })))
    );
    assert_eq!(
        analyzer.analyze(drop_tables(vec![], false)),
        Ok(QueryAnalysis::DataDefinition(SchemaChange::DropTables(DropTablesQuery {
            table_ids: vec![],
            cascade: true,
            if_exists: false,
        })))
    );
}

#[test]
fn tables_to_drop_that_are_missing_are_errors_unless_if_exists() {
    let data_manager = with_two_tables();
    let analyzer = Analyzer::new(data_manager.definitions());
    let names = || {
        vec![
            vec![SCHEMA, TABLE],
            vec![SCHEMA, "missing"],
            vec!["nowhere", TABLE],
            vec![SCHEMA, "first"],
        ]
    };

    assert_eq!(
        analyzer.analyze(drop_tables(names(), false)),
        Err(AnalysisError::table_does_not_exist("schema_name.missing"))
    );
    assert_eq!(
        analyzer.analyze(drop_tables(vec![vec!["nowhere", TABLE], vec![SCHEMA, "missing"]], false)),
        Err(AnalysisError::schema_does_not_exist("nowhere"))
    );
    assert_eq!(
        analyzer.analyze(drop_tables(names(), true)),
        Ok(QueryAnalysis::DataDefinition(SchemaChange::DropTables(DropTablesQuery {
            table_ids: vec![(1, 1), (1, 0)],
            cascade: true,
            if_exists: true,
        })))
    );
    assert_eq!(
        analyzer.analyze(drop_tables(vec![vec![SCHEMA, TABLE], vec![TABLE]], true)),
        Err(AnalysisError::table_naming_error(
            "Unsupported table name 'table_name'. All table names must be qualified"
        ))
    );
    assert_eq!(
        analyzer.analyze(drop_tables(vec![vec!["a", "b", "c"]], true)),
        Err(AnalysisError::table_naming_error("Unable to process table name 'a.b.c'"))
    );
}

#[test]
fn delete_is_resolved_to_the_handle_of_its_table() {
    let data_manager = with_two_tables();
    let analyzer = Analyzer::new(data_manager.definitions());

    assert_eq!(
        analyzer.analyze(delete(vec![SCHEMA, TABLE], None)),
        Ok(QueryAnalysis::Write(Write::Delete { table_id: (1, 1), predicate: None }))
    );
    assert_eq!(
        analyzer.analyze(delete(vec![SCHEMA, "missing"], None)),
        Err(AnalysisError::table_does_not_exist("schema_name.missing"))
    );
    assert_eq!(
        analyzer.analyze(delete(vec!["nowhere", TABLE], None)),
        Err(AnalysisError::schema_does_not_exist("nowhere"))
    );
    assert_eq!(
        analyzer.analyze(delete(vec![TABLE], None)),
        Err(AnalysisError::table_naming_error(
            "Unsupported table name 'table_name'. All table names must be qualified"
        ))
    );
    assert_eq!(
        analyzer.analyze(delete(vec![SCHEMA, TABLE], Some(sqlparser::ast::Expr::Wildcard))),
        Err(AnalysisError::FeatureNotSupported("WHERE".to_owned()))
    );
    assert_eq!(analyzer.resolve_table(&vec!["other".to_owned(), TABLE.to_owned()]).is_err(), true);
    assert_eq!(analyzer.resolve_table(&vec![SCHEMA.to_owned(), "first".to_owned()]), Ok((1, 0)));
}

#[test]
fn analyzer_rejects_bad_names() {
    let mut data_definition = DataManager::in_memory();
    data_definition.create_schema(SCHEMA).expect("schema created");
    let analyzer = Analyzer::new(data_definition.definitions());

    assert_eq!(
        analyzer.analyze(create_table(vec!["only_one_part"], vec![])),
        Err(AnalysisError::table_naming_error(
            "Unsupported table name 'only_one_part'. All table names must be qualified"
        ))
    );
    assert_eq!(
        analyzer.analyze(create_table(vec!["a", "b", "c", "d"], vec![])),
        Err(AnalysisError::table_naming_error("Unable to process table name 'a.b.c.d'"))
    );
}

fn drop_schemas(names: Vec<Vec<&str>>, if_exists: bool) -> Statement {
    Statement::Drop {
        object_type: sqlparser::ast::ObjectType::Schema,
        if_exists,
        names: names
            .into_iter()
            .map(|name| ObjectName(name.into_iter().map(ident).collect()))
            .collect(),
        cascade: false,
    }
}

#[test]
fn a_schema_to_create_has_a_name_of_one_part() {
    let data_manager = with_two_tables();
    let analyzer = Analyzer::new(data_manager.definitions());
    let create = |name: Vec<&str>| Statement::CreateSchema {
        schema_name: ObjectName(name.into_iter().map(ident).collect()),
    };

    assert_eq!(
        analyzer.analyze(create(vec!["new"])),
        Ok(QueryAnalysis::DataDefinition(SchemaChange::CreateSchema(
            CreateSchemaQuery {
                schema_name: "new".to_owned(),
                if_not_exists: false
            }
        )))
    );
    assert_eq!(
        analyzer.analyze(create(vec![SCHEMA])),
        Ok(QueryAnalysis::DataDefinition(SchemaChange::CreateSchema(
            CreateSchemaQuery {
                schema_name: SCHEMA.to_owned(),
                if_not_exists: false
            }
        )))
    );
    assert_eq!(
        analyzer.analyze(create(vec!["a", "b"])),
        Err(AnalysisError::SyntaxError("Unable to process schema name 'a.b'".to_owned()))
    );
    assert_eq!(
        analyzer.analyze(create(vec![])),
        Err(AnalysisError::SyntaxError("Unable to process schema name ''".to_owned()))
    );
}

#[test]
fn schemas_to_drop_are_resolved_in_order() {
    let data_manager = with_two_tables();
    let analyzer = Analyzer::new(data_manager.definitions());
    let dropped = |names: Vec<&str>, if_exists: bool| {
        Ok(QueryAnalysis::DataDefinition(SchemaChange::DropSchemas(
            DropSchemasQuery {
                schema_names: names.into_iter().map(str::to_owned).collect(),
                cascade: false,
                if_exists,
            },
        )))
    };

    assert_eq!(
        analyzer.analyze(drop_schemas(vec![vec![SCHEMA], vec!["other"]], false)),
        dropped(vec![SCHEMA, "other"], false)
    );
    assert_eq!(
        analyzer.analyze(drop_schemas(vec![vec![SCHEMA], vec!["none"], vec!["other"]], false)),
        Err(AnalysisError::schema_does_not_exist("none"))
    );
    assert_eq!(
        analyzer.analyze(drop_schemas(vec![vec![SCHEMA], vec!["none"], vec!["other"]], true)),
        dropped(vec![SCHEMA, "other"], true)
    );
    assert_eq!(
        analyzer.analyze(drop_schemas(vec![vec!["none"], vec!["a", "b"]], true)),
        Err(AnalysisError::SyntaxError("Unable to process schema name 'a.b'".to_owned()))
    );
    assert_eq!(analyzer.resolve_schema(&vec![SCHEMA.to_owned()]), Ok(SCHEMA.to_owned()));
}

fn number(text: &str) -> Expr {
    Expr::Value(Value::Number(text.to_owned()))
}

fn insert_rows(name: Vec<&str>, columns: Vec<&str>, rows: Vec<Vec<Expr>>) -> Statement {
    Statement::Insert {
        table_name: ObjectName(name.into_iter().map(ident).collect()),
        columns: columns.into_iter().map(ident).collect(),
        source: Box::new(Query {
            ctes: vec![],
            body: SetExpr::Values(Values(rows)),
            order_by: vec![],
            limit: None,
            offset: None,
            fetch: None,
        }),
    }
}

#[test]
fn the_values_of_an_insert_are_read_as_they_are_written() {
    let mut data_manager = DataManager::in_memory();
    data_manager.create_schema(SCHEMA).expect("schema created");
    let table_id = data_manager
        .create_table(
            SCHEMA,
            TABLE,
            &[
                ColumnDefinition::new("a", SqlType::SmallInt),
                ColumnDefinition::new("b", SqlType::VarChar(3)),
            ],
        )
        .expect("table created");
    let analyzer = Analyzer::new(data_manager.definitions());
    let minus = |expr: Expr| Expr::UnaryOp {
        op: sqlparser::ast::UnaryOperator::Minus,
        expr: Box::new(expr),
    };

    assert_eq!(
        analyzer.analyze(insert_rows(
            vec![SCHEMA, TABLE],
            vec![],
            vec![
                vec![number("1"), Expr::Value(Value::SingleQuotedString("abc".to_owned()))],
                vec![minus(number("2")), Expr::Value(Value::Null)],
                vec![Expr::Value(Value::Boolean(true)), minus(Expr::Value(Value::Null)), Expr::Wildcard],
                vec![],
            ]
        )),
        Ok(QueryAnalysis::Write(Write::Insert(InsertQuery {
            table_id,
            sql_types: vec![SqlType::SmallInt, SqlType::VarChar(3)],
            rows: vec![
                vec![
                    Literal::Number {
                        negative: false,
                        text: "1".to_owned()
                    },
                    Literal::Text("abc".to_owned())
                ],
                vec![
                    Literal::Number {
                        negative: true,
                        text: "2".to_owned()
                    },
                    Literal::Null
                ],
                vec![Literal::Bool(true), Literal::Other, Literal::Other],
                vec![],
            ],
        })))
    );
    assert_eq!(
        analyzer.analyze(insert_rows(vec![SCHEMA, TABLE], vec!["a"], vec![])),
        Err(AnalysisError::FeatureNotSupported("column list".to_owned()))
    );
    assert_eq!(
        analyzer.analyze(insert_rows(vec![SCHEMA, "none"], vec!["a"], vec![])),
        Err(AnalysisError::table_does_not_exist("schema_name.none"))
    );
    assert_eq!(
        analyzer.analyze(insert_rows(vec!["none", TABLE], vec![], vec![])),
        Err(AnalysisError::schema_does_not_exist("none"))
    );
    assert_eq!(
        analyzer.analyze(insert_rows(vec![TABLE], vec![], vec![])),
        Err(AnalysisError::table_naming_error(
            "Unsupported table name 'table_name'. All table names must be qualified"
        ))
    );
}

#[test]
fn create_table_with_a_column_name_twice() {
    let mut data_definition = DataManager::in_memory();
    data_definition.create_schema(SCHEMA).expect("schema created");
    let analyzer = Analyzer::new(data_definition.definitions());

    assert_eq!(
        analyzer.analyze(create_table(
            vec![SCHEMA, TABLE],
            vec![
                column("a", sqlparser::ast::DataType::Int),
                column("b", sqlparser::ast::DataType::Int),
                column("c", sqlparser::ast::DataType::Int),
                column("b", sqlparser::ast::DataType::Boolean),
                column("a", sqlparser::ast::DataType::Boolean),
            ],
        )),
        Err(AnalysisError::DuplicateColumn("b".to_owned()))
    );
    assert_eq!(
        analyzer.analyze(create_table(
            vec![SCHEMA, TABLE],
            vec![
                column("a", sqlparser::ast::DataType::Int),
                column("a", sqlparser::ast::DataType::Uuid),
            ],
        )),
        Err(AnalysisError::type_is_not_supported("unknown"))
    );
}

#[test]
fn statements_of_the_session_are_told_apart() {
    let data_definition = DataManager::in_memory();
    let analyzer = Analyzer::new(data_definition.definitions());

    assert_eq!(
        analyzer.analyze(Statement::SetVariable {
            local: false,
            variable: ident("x"),
            value: sqlparser::ast::SetVariableValue::Ident(ident("y")),
        }),
        Ok(QueryAnalysis::Session(SessionStatement::SetVariable))
    );
    assert_eq!(
        analyzer.analyze(Statement::Commit { chain: false }),
        Ok(QueryAnalysis::Session(SessionStatement::Other))
    );
    assert_eq!(
        analyzer.analyze(Statement::Rollback { chain: false }),
        Ok(QueryAnalysis::Session(SessionStatement::Other))
    );
    assert_eq!(
        analyzer.analyze(Statement::StartTransaction { modes: vec![] }),
        Ok(QueryAnalysis::Session(SessionStatement::Other))
    );
    assert_eq!(
        analyzer.analyze(Statement::SetTransaction { modes: vec![] }),
        Ok(QueryAnalysis::Session(SessionStatement::Other))
    );
}

fn written_column(name: &str) -> Box<Expr> {
    Box::new(Expr::Identifier(ident(name)))
}

fn written_number(text: &str) -> Box<Expr> {
    Box::new(Expr::Value(Value::Number(text.to_owned())))
}

fn read_column(name: &str) -> Box<ScalarOp> {
    Box::new(ScalarOp::Column(name.to_owned()))
}

fn read_number(text: &str) -> Box<ScalarOp> {
    Box::new(ScalarOp::Value(ScalarValue::Number(text.parse::<BigDecimal>().expect("a number"))))
}

fn with_columns() -> DataManager {
    let mut data_manager = DataManager::in_memory();
    data_manager.create_schema(SCHEMA).expect("schema created");
    data_manager
        .create_table(
            SCHEMA,
            TABLE,
            &[
                ColumnDefinition::new("a", SqlType::Integer),
                ColumnDefinition::new("b", SqlType::VarChar(10)),
            ],
        )
        .expect("table created");
    data_manager
}

#[test]
fn the_expression_of_a_delete_is_read() {
    let data_manager = with_columns();
    let analyzer = Analyzer::new(data_manager.definitions());

    let written = Expr::BinaryOp {
        left: written_column("a"),
        op: BinaryOperator::Gt,
        right: Box::new(Expr::Nested(Box::new(Expr::BinaryOp {
            left: written_number("1.5"),
            op: BinaryOperator::Plus,
            right: Box::new(Expr::UnaryOp { op: UnaryOperator::Minus, expr: written_number("2") }),
        }))),
    };
    assert_eq!(
        analyzer.analyze(delete(vec![SCHEMA, TABLE], Some(written))),
        Ok(QueryAnalysis::Write(Write::Delete {
            table_id: (0, 0),
            predicate: Some(ScalarOp::Binary(
                BinaryOp::Gt,
                read_column("a"),
                Box::new(ScalarOp::Binary(
                    BinaryOp::Add,
                    read_number("1.5"),
                    Box::new(ScalarOp::Unary(UnaryOp::Minus, read_number("2"))),
                )),
            )),
        }))
    );
}

#[test]
fn the_expression_of_a_delete_names_columns_of_the_table() {
    let data_manager = with_columns();
    let analyzer = Analyzer::new(data_manager.definitions());

    let written = Expr::BinaryOp {
        left: Box::new(Expr::BinaryOp {
            left: written_column("a"),
            op: BinaryOperator::Plus,
            right: written_column("d"),
        }),
        op: BinaryOperator::Eq,
        right: written_column("c"),
    };
    assert_eq!(
        analyzer.analyze(delete(vec![SCHEMA, TABLE], Some(written))),
        Err(AnalysisError::ColumnDoesNotExist("d".to_owned()))
    );
    assert_eq!(
        analyzer.analyze(delete(vec![SCHEMA, "missing"], Some(*written_column("c")))),
        Err(AnalysisError::table_does_not_exist("schema_name.missing"))
    );
}

#[test]
fn expressions_that_are_not_read() {
    let data_manager = with_columns();
    let analyzer = Analyzer::new(data_manager.definitions());
    let not_supported = Err(AnalysisError::FeatureNotSupported("WHERE".to_owned()));

    let and = Expr::BinaryOp {
        left: written_column("a"),
        op: BinaryOperator::And,
        right: written_column("b"),
    };
    assert_eq!(analyzer.analyze(delete(vec![SCHEMA, TABLE], Some(and))), not_supported);
    let is_null = Expr::IsNull(written_column("a"));
    assert_eq!(analyzer.analyze(delete(vec![SCHEMA, TABLE], Some(is_null))), not_supported);
    let with_exponent = Expr::BinaryOp {
        left: written_column("a"),
        op: BinaryOperator::Eq,
        right: written_number("1e3"),
    };
    assert_eq!(analyzer.analyze(delete(vec![SCHEMA, TABLE], Some(with_exponent))), not_supported);
    let two_points = Expr::BinaryOp {
        left: written_column("a"),
        op: BinaryOperator::Eq,
        right: written_number("1.2.3"),
    };
    assert_eq!(analyzer.analyze(delete(vec![SCHEMA, TABLE], Some(two_points))), not_supported);
}

#[test]
fn expressions_are_read_to_a_depth() {
    let mut shallow = *written_column("a");
    for _ in 0..MAX_DEPTH {
        shallow = Expr::Nested(Box::new(shallow));
    }
    assert_eq!(read_expression(&shallow, MAX_DEPTH), Some(ScalarOp::Column("a".to_owned())));
    assert_eq!(read_expression(&shallow, MAX_DEPTH - 1), None);
    assert_eq!(read_expression(&Expr::Nested(Box::new(shallow)), MAX_DEPTH), None);
    assert_eq!(read_expression(&written_column("a"), 0), Some(ScalarOp::Column("a".to_owned())));
}

#[test]
fn values_are_read_as_they_are_written() {
    assert_eq!(value_written(Literal::Null), Some(ScalarValue::Null));
    assert_eq!(value_written(Literal::Bool(true)), Some(ScalarValue::Bool(true)));
    assert_eq!(
        value_written(Literal::Text("1".to_owned())),
        Some(ScalarValue::String("1".to_owned()))
    );
    assert_eq!(
        value_written(Literal::Number { negative: false, text: "10.50".to_owned() }),
        Some(ScalarValue::Number("10.5".parse::<BigDecimal>().expect("a number")))
    );
    assert_eq!(value_written(Literal::Number { negative: true, text: "1".to_owned() }), None);
    assert_eq!(value_written(Literal::Number { negative: false, text: "".to_owned() }), None);
    assert_eq!(value_written(Literal::Number { negative: false, text: "-1".to_owned() }), None);
    assert_eq!(value_written(Literal::Other), None);
}

#[test]
fn operators_are_found_by_their_signs() {
    let operators = [
        BinaryOp::Add,
        BinaryOp::Sub,
        BinaryOp::Mul,
        BinaryOp::Div,
        BinaryOp::Mod,
        BinaryOp::Concat,
        BinaryOp::BitwiseAnd,
        BinaryOp::BitwiseOr,
        BinaryOp::Eq,
        BinaryOp::NotEq,
        BinaryOp::Lt,
        BinaryOp::LtEq,
        BinaryOp::Gt,
        BinaryOp::GtEq,
    ];
    for operator in operators.iter() {
        assert_eq!(operator_by_sign(&operator.sign().to_owned()), Some(*operator));
    }
    for operator in [UnaryOp::Minus, UnaryOp::Plus, UnaryOp::Not].iter() {
        assert_eq!(unary_operator_by_sign(&operator.sign().to_owned()), Some(*operator));
    }
    assert_eq!(operator_by_sign(&"AND".to_owned()), None);
    assert_eq!(operator_by_sign(&"^".to_owned()), None);
    assert_eq!(unary_operator_by_sign(&"!".to_owned()), None);
}
