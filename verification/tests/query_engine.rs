use sql_engine::analyzer::DescriptionError;
use sql_engine::metadata::ColumnDefinition;
use sql_engine::protocol::{
    Command, PlanError, PostgreSqlFormat, PostgreSqlValue, QueryError, QueryEvent,
};
use sql_engine::query_engine::{
    bind_prepared_statement_to_portal, decode_params, describe, pad_formats, BindError, Done, Outgoing, Prepared,
    PreparedStatement, QueryEngine, Ran, Work,
};
use sql_engine::sql_types::{PgType, SqlType};

fn decode(pg_type: PgType, format: PostgreSqlFormat, bytes: &Vec<u8>) -> Result<PostgreSqlValue, String> {
    match (pg_type, format) {
        (PgType::SmallInt, PostgreSqlFormat::Binary) if bytes.len() == 2 => {
            Ok(PostgreSqlValue::Int16(i16::from_be_bytes([bytes[0], bytes[1]])))
        }
        (PgType::VarChar, PostgreSqlFormat::Text) => match String::from_utf8(bytes.clone()) {
            Ok(text) => Ok(PostgreSqlValue::String(text)),
            Err(_) => Err("invalid text".to_owned()),
        },
        (PgType::Bool, PostgreSqlFormat::Text) if bytes == b"t" => Ok(PostgreSqlValue::True),
        (PgType::Bool, PostgreSqlFormat::Text) if bytes == b"f" => Ok(PostgreSqlValue::False),
        _ => Err(format!("cannot decode {:?} as {:?}", bytes, pg_type)),
    }
}

fn bind(stmt: &String, params: &Vec<PostgreSqlValue>) -> Result<String, ()> {
    if stmt.contains("unbindable") {
        Err(())
    } else {
        Ok(format!("{} <- {:?}", stmt, params))
    }
}

fn send(event: QueryEvent) -> Outgoing {
    Outgoing::Send(Ok(event))
}

fn fail(error: QueryError) -> Outgoing {
    Outgoing::Send(Err(error))
}

fn parse(name: &str, param_types: Vec<PgType>) -> Command {
    Command::Parse {
        statement_name: name.to_owned(),
        sql: "select".to_owned(),
        param_types,
    }
}

fn bind_command(portal: &str, statement: &str, raw_params: Vec<Option<Vec<u8>>>) -> Command {
    Command::Bind {
        portal_name: portal.to_owned(),
        statement_name: statement.to_owned(),
        param_formats: vec![],
        raw_params,
        result_formats: vec![],
    }
}

fn engine_with(name: &str, statement: &str, param_types: Vec<PgType>) -> QueryEngine<String> {
    let mut engine = QueryEngine::new();
    let answer = engine.respond(
        parse(name, param_types),
        Done::Prepared(Prepared::Update {
            statement: statement.to_owned(),
        }),
        &decode,
        &bind,
    );
    assert_eq!(answer, (Ok(()), vec![send(QueryEvent::ParseComplete)]));
    engine
}

#[test]
fn no_formats_stand_for_text_throughout() {
    assert_eq!(
        pad_formats(&[], 3),
        Ok(vec![PostgreSqlFormat::Text, PostgreSqlFormat::Text, PostgreSqlFormat::Text])
    );
    assert_eq!(pad_formats(&[], 0), Ok(vec![]));
}

#[test]
fn one_format_stands_for_all_values() {
    assert_eq!(
        pad_formats(&[PostgreSqlFormat::Binary], 2),
        Ok(vec![PostgreSqlFormat::Binary, PostgreSqlFormat::Binary])
    );
    assert_eq!(pad_formats(&[PostgreSqlFormat::Binary], 0), Ok(vec![]));
}

#[test]
fn as_many_formats_as_values_are_kept() {
    assert_eq!(
        pad_formats(&[PostgreSqlFormat::Binary, PostgreSqlFormat::Text], 2),
        Ok(vec![PostgreSqlFormat::Binary, PostgreSqlFormat::Text])
    );
}

#[test]
fn another_number_of_formats_is_refused() {
    assert_eq!(
        pad_formats(
            &[PostgreSqlFormat::Binary, PostgreSqlFormat::Text, PostgreSqlFormat::Text],
            2
        ),
        Err("expected 3 field format specifiers, but got 2".to_owned())
    );
    assert_eq!(
        pad_formats(&[PostgreSqlFormat::Binary, PostgreSqlFormat::Text], 120),
        Err("expected 2 field format specifiers, but got 120".to_owned())
    );
}

#[test]
fn columns_are_described_by_name_and_wire_type() {
    assert_eq!(
        describe(vec![
            ColumnDefinition::new("flag", SqlType::Bool),
            ColumnDefinition::new("name", SqlType::VarChar(20)),
            ColumnDefinition::new("count", SqlType::BigInt),
        ]),
        vec![
            ("flag".to_owned(), PgType::Bool),
            ("name".to_owned(), PgType::VarChar),
            ("count".to_owned(), PgType::BigInt),
        ]
    );
}

#[test]
fn parameters_are_decoded_in_order() {
    assert_eq!(
        decode_params(
            &[Some(vec![0, 7]), None, Some(b"abc".to_vec())],
            &vec![PgType::SmallInt, PgType::Bool, PgType::VarChar],
            &vec![PostgreSqlFormat::Binary, PostgreSqlFormat::Text, PostgreSqlFormat::Text],
            &decode,
        ),
        Ok(vec![
            PostgreSqlValue::Int16(7),
            PostgreSqlValue::Null,
            PostgreSqlValue::String("abc".to_owned())
        ])
    );
}

#[test]
fn decoding_stops_at_the_first_parameter_that_is_refused() {
    assert_eq!(
        decode_params(
            &[Some(vec![0, 7]), Some(vec![0xff]), Some(vec![1, 2, 3])],
            &vec![PgType::SmallInt, PgType::VarChar, PgType::SmallInt],
            &vec![PostgreSqlFormat::Binary, PostgreSqlFormat::Text, PostgreSqlFormat::Binary],
            &decode,
        ),
        Err("invalid text".to_owned())
    );
}

#[test]
fn a_statement_is_bound_with_padded_formats() {
    let prepared = PreparedStatement::new(
        "insert".to_owned(),
        vec![PgType::SmallInt, PgType::Bool],
        vec![("a".to_owned(), PgType::Bool), ("b".to_owned(), PgType::Bool)],
    );
    assert_eq!(
        bind_prepared_statement_to_portal(
            &prepared,
            &[PostgreSqlFormat::Binary, PostgreSqlFormat::Text],
            &[Some(vec![1, 0]), Some(b"t".to_vec())],
            &[PostgreSqlFormat::Binary],
            &decode,
            &bind,
        ),
        Ok((
            "insert <- [Int16(256), True]".to_owned(),
            vec![PostgreSqlFormat::Binary, PostgreSqlFormat::Binary]
        ))
    );
}

#[test]
fn binding_reports_what_went_wrong() {
    let prepared = PreparedStatement::new(
        "insert".to_owned(),
        vec![PgType::SmallInt],
        vec![("a".to_owned(), PgType::Bool)],
    );
    let two = [PostgreSqlFormat::Text, PostgreSqlFormat::Text];
    assert_eq!(
        bind_prepared_statement_to_portal(&prepared, &two, &[None], &[], &decode, &bind),
        Err(BindError::ProtocolViolation(
            "expected 2 field format specifiers, but got 1".to_owned()
        ))
    );
    assert_eq!(
        bind_prepared_statement_to_portal(&prepared, &[], &[None], &two, &decode, &bind),
        Err(BindError::ProtocolViolation(
            "expected 2 field format specifiers, but got 1".to_owned()
        ))
    );
    assert_eq!(
        bind_prepared_statement_to_portal(&prepared, &[], &[Some(vec![1])], &[], &decode, &bind),
        Err(BindError::InvalidParameterValue(
            "cannot decode [1] as SmallInt".to_owned()
        ))
    );
    let unbindable = PreparedStatement::new("unbindable".to_owned(), vec![], vec![]);
    assert_eq!(
        bind_prepared_statement_to_portal(&unbindable, &[], &[], &[], &decode, &bind),
        Err(BindError::NotBound)
    );
}

#[test]
fn work_is_asked_for_texts_and_portals() {
    let mut engine = engine_with("stmt", "update", vec![]);
    let sql = "select".to_owned();

    assert_eq!(engine.work_for(&parse("stmt", vec![])), Work::Prepare { sql: &sql });
    assert_eq!(
        engine.work_for(&Command::Query { sql: sql.clone() }),
        Work::Run { sql: &sql }
    );
    assert_eq!(engine.work_for(&Command::Flush), Work::Nothing);
    assert_eq!(engine.work_for(&Command::Continue), Work::Nothing);
    assert_eq!(engine.work_for(&Command::Terminate), Work::Nothing);
    let execute = Command::Execute {
        portal_name: "portal".to_owned(),
        max_rows: 0,
    };
    assert_eq!(engine.work_for(&execute), Work::Nothing);
    assert_eq!(
        engine.respond(bind_command("portal", "stmt", vec![]), Done::Nothing, &decode, &bind),
        (Ok(()), vec![send(QueryEvent::BindComplete)])
    );
    assert_eq!(
        engine.work_for(&execute),
        Work::RunStatement {
            stmt: &"update <- []".to_owned()
        }
    );
}

#[test]
fn continue_and_flush_and_terminate() {
    let mut engine: QueryEngine<String> = QueryEngine::new();

    assert_eq!(
        engine.respond(Command::Continue, Done::Nothing, &decode, &bind),
        (Ok(()), vec![send(QueryEvent::QueryComplete)])
    );
    assert_eq!(
        engine.respond(Command::Flush, Done::Nothing, &decode, &bind),
        (Ok(()), vec![Outgoing::Flush])
    );
    assert_eq!(
        engine.respond(Command::Terminate, Done::Nothing, &decode, &bind),
        (Err(()), vec![])
    );
}

#[test]
fn a_select_is_kept_with_its_description() {
    let mut engine: QueryEngine<String> = QueryEngine::new();

    assert_eq!(
        engine.respond(
            parse("stmt", vec![PgType::Integer]),
            Done::Prepared(Prepared::Select {
                statement: "select".to_owned(),
                columns: vec![ColumnDefinition::new("c", SqlType::Bool)],
            }),
            &decode,
            &bind,
        ),
        (Ok(()), vec![send(QueryEvent::ParseComplete)])
    );
    assert_eq!(
        engine.respond(
            Command::DescribeStatement {
                name: "stmt".to_owned()
            },
            Done::Nothing,
            &decode,
            &bind,
        ),
        (
            Ok(()),
            vec![
                send(QueryEvent::StatementParameters(vec![PgType::Integer])),
                send(QueryEvent::StatementDescription(vec![("c".to_owned(), PgType::Bool)])),
            ]
        )
    );
}

#[test]
fn an_insert_is_kept_with_the_types_of_its_columns() {
    let mut engine: QueryEngine<String> = QueryEngine::new();

    assert_eq!(
        engine.respond(
            parse("stmt", vec![]),
            Done::Prepared(Prepared::Insert {
                statement: "insert".to_owned(),
                sql_types: Ok(vec![SqlType::SmallInt, SqlType::VarChar(10)]),
            }),
            &decode,
            &bind,
        ),
        (Ok(()), vec![send(QueryEvent::ParseComplete)])
    );
    assert_eq!(
        engine.describe_statement("stmt".to_owned()),
        vec![
            send(QueryEvent::StatementParameters(vec![PgType::SmallInt, PgType::VarChar])),
            send(QueryEvent::StatementDescription(vec![])),
        ]
    );
}

#[test]
fn an_insert_into_what_is_missing_is_reported() {
    let mut engine: QueryEngine<String> = QueryEngine::new();

    assert_eq!(
        engine.parse(
            "stmt".to_owned(),
            vec![],
            Done::Prepared(Prepared::Insert {
                statement: "insert".to_owned(),
                sql_types: Err(DescriptionError::TableDoesNotExist("s.t".to_owned())),
            }),
        ),
        vec![fail(QueryError::table_does_not_exist("s.t".to_owned()))]
    );
    assert_eq!(
        engine.parse(
            "stmt".to_owned(),
            vec![],
            Done::Prepared(Prepared::Insert {
                statement: "insert".to_owned(),
                sql_types: Err(DescriptionError::SchemaDoesNotExist("s".to_owned())),
            }),
        ),
        vec![fail(QueryError::schema_does_not_exist("s".to_owned()))]
    );
    assert_eq!(
        engine.describe_statement("stmt".to_owned()),
        vec![fail(QueryError::prepared_statement_does_not_exist("stmt".to_owned()))]
    );
}

#[test]
fn statements_that_cannot_be_prepared_are_reported() {
    let mut engine: QueryEngine<String> = QueryEngine::new();

    assert_eq!(
        engine.parse(
            "stmt".to_owned(),
            vec![],
            Done::Prepared(Prepared::SyntaxError("near x".to_owned()))
        ),
        vec![fail(QueryError::syntax_error("near x".to_owned()))]
    );
    assert_eq!(
        engine.parse(
            "stmt".to_owned(),
            vec![],
            Done::Prepared(Prepared::PlanErrors(vec![
                PlanError::SchemaAlreadyExists("a".to_owned()),
                PlanError::SchemaDoesNotExist("b".to_owned()),
                PlanError::TableAlreadyExists("c".to_owned()),
                PlanError::TableDoesNotExist("d".to_owned()),
                PlanError::DuplicateColumn("e".to_owned()),
                PlanError::ColumnDoesNotExist("f".to_owned()),
                PlanError::SyntaxError("g".to_owned()),
                PlanError::FeatureNotSupported("h".to_owned()),
                PlanError::TableNamingError("i".to_owned()),
                PlanError::TypeIsNotSupported("j".to_owned()),
            ]))
        ),
        vec![
            fail(QueryError::schema_already_exists("a".to_owned())),
            fail(QueryError::schema_does_not_exist("b".to_owned())),
            fail(QueryError::table_already_exists("c".to_owned())),
            fail(QueryError::table_does_not_exist("d".to_owned())),
            fail(QueryError::duplicate_column("e".to_owned())),
            fail(QueryError::column_does_not_exist("f".to_owned())),
            fail(QueryError::syntax_error("g".to_owned())),
            fail(QueryError::feature_not_supported("h".to_owned())),
            fail(QueryError::syntax_error("i".to_owned())),
            fail(QueryError::type_is_not_supported("j".to_owned())),
        ]
    );
    assert_eq!(
        engine.parse("stmt".to_owned(), vec![], Done::Prepared(Prepared::NotSupported)),
        vec![]
    );
    assert_eq!(engine.parse("stmt".to_owned(), vec![], Done::Nothing), vec![]);
    assert_eq!(
        engine.parse(
            "stmt".to_owned(),
            vec![],
            Done::Prepared(Prepared::SetVariable {
                statement: "set".to_owned()
            })
        ),
        vec![send(QueryEvent::ParseComplete)]
    );
}

#[test]
fn bind_of_a_statement_that_is_missing() {
    let mut engine: QueryEngine<String> = QueryEngine::new();

    assert_eq!(
        engine.respond(bind_command("portal", "stmt", vec![]), Done::Nothing, &decode, &bind),
        (
            Ok(()),
            vec![fail(QueryError::prepared_statement_does_not_exist("stmt".to_owned()))]
        )
    );
}

#[test]
fn bind_with_the_wrong_number_of_parameters() {
    let mut engine = engine_with("stmt", "update", vec![PgType::Bool, PgType::Bool]);

    assert_eq!(
        engine.respond(
            bind_command("portal", "stmt", vec![None]),
            Done::Nothing,
            &decode,
            &bind
        ),
        (
            Ok(()),
            vec![fail(QueryError::protocol_violation(
                "Bind message supplies 1 parameters, but prepared statement \"stmt\" requires 2".to_owned()
            ))]
        )
    );
    assert_eq!(
        engine.execute_portal("portal".to_owned(), Done::Nothing),
        vec![
            fail(QueryError::portal_does_not_exist("portal".to_owned())),
            send(QueryEvent::QueryComplete)
        ]
    );
}

#[test]
fn bind_with_a_parameter_that_cannot_be_decoded() {
    let mut engine = engine_with("stmt", "update", vec![PgType::Bool]);

    assert_eq!(
        engine.respond(
            bind_command("portal", "stmt", vec![Some(b"x".to_vec())]),
            Done::Nothing,
            &decode,
            &bind
        ),
        (
            Ok(()),
            vec![fail(QueryError::invalid_parameter_value(
                "cannot decode [120] as Bool".to_owned()
            ))]
        )
    );
}

#[test]
fn bind_that_the_binder_refuses_answers_nothing() {
    let mut engine = engine_with("stmt", "unbindable", vec![]);

    assert_eq!(
        engine.respond(bind_command("portal", "stmt", vec![]), Done::Nothing, &decode, &bind),
        (Ok(()), vec![])
    );
}

#[test]
fn execute_answers_with_what_the_statement_answered() {
    let mut engine = engine_with("stmt", "update", vec![]);
    assert_eq!(
        engine.respond(bind_command("portal", "stmt", vec![]), Done::Nothing, &decode, &bind),
        (Ok(()), vec![send(QueryEvent::BindComplete)])
    );
    let execute = || Command::Execute {
        portal_name: "portal".to_owned(),
        max_rows: 10,
    };

    assert_eq!(
        engine.respond(
            execute(),
            Done::Ran(Ran::Executed(vec![
                Ok(QueryEvent::RecordsUpdated(3)),
                Err(QueryError::syntax_error("x".to_owned()))
            ])),
            &decode,
            &bind
        ),
        (
            Ok(()),
            vec![
                send(QueryEvent::RecordsUpdated(3)),
                fail(QueryError::syntax_error("x".to_owned())),
                send(QueryEvent::QueryComplete)
            ]
        )
    );
    assert_eq!(
        engine.respond(
            execute(),
            Done::Ran(Ran::PlanErrors(vec![PlanError::SyntaxError("x".to_owned())])),
            &decode,
            &bind
        ),
        (Ok(()), vec![send(QueryEvent::QueryComplete)])
    );
    assert_eq!(
        engine.respond(
            Command::Execute {
                portal_name: "other".to_owned(),
                max_rows: 0
            },
            Done::Nothing,
            &decode,
            &bind
        ),
        (
            Ok(()),
            vec![
                fail(QueryError::portal_does_not_exist("other".to_owned())),
                send(QueryEvent::QueryComplete)
            ]
        )
    );
}

#[test]
fn a_query_ends_with_query_complete() {
    let mut engine: QueryEngine<String> = QueryEngine::new();
    let query = || Command::Query {
        sql: "select".to_owned(),
    };

    assert_eq!(
        engine.respond(
            query(),
            Done::Ran(Ran::Executed(vec![Ok(QueryEvent::SchemaCreated)])),
            &decode,
            &bind
        ),
        (
            Ok(()),
            vec![send(QueryEvent::SchemaCreated), send(QueryEvent::QueryComplete)]
        )
    );
    assert_eq!(
        engine.respond(
            query(),
            Done::Ran(Ran::SyntaxError("near select".to_owned())),
            &decode,
            &bind
        ),
        (
            Ok(()),
            vec![
                fail(QueryError::syntax_error("near select".to_owned())),
                send(QueryEvent::QueryComplete)
            ]
        )
    );
    assert_eq!(
        engine.respond(
            query(),
            Done::Ran(Ran::PlanErrors(vec![
                PlanError::TableDoesNotExist("s.t".to_owned()),
                PlanError::ColumnDoesNotExist("c".to_owned())
            ])),
            &decode,
            &bind
        ),
        (
            Ok(()),
            vec![
                fail(QueryError::table_does_not_exist("s.t".to_owned())),
                fail(QueryError::column_does_not_exist("c".to_owned())),
                send(QueryEvent::QueryComplete)
            ]
        )
    );
    assert_eq!(
        engine.respond(query(), Done::Nothing, &decode, &bind),
        (Ok(()), vec![send(QueryEvent::QueryComplete)])
    );
}

#[test]
fn a_statement_prepared_again_takes_the_place_of_the_first() {
    let mut engine = engine_with("stmt", "first", vec![PgType::Bool]);
    assert_eq!(
        engine.parse(
            "stmt".to_owned(),
            vec![PgType::BigInt],
            Done::Prepared(Prepared::Update {
                statement: "second".to_owned()
            })
        ),
        vec![send(QueryEvent::ParseComplete)]
    );
    assert_eq!(
        engine.describe_statement("stmt".to_owned()),
        vec![
            send(QueryEvent::StatementParameters(vec![PgType::BigInt])),
            send(QueryEvent::StatementDescription(vec![])),
        ]
    );
}
