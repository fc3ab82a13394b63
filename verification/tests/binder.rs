use sql_engine::binder::{
    bind, bind_expression, bind_literals, find_place, write_literal, write_parameter, write_parameters, Place,
};
use sql_engine::expression::MAX_DEPTH;
use sql_engine::protocol::PostgreSqlValue;
use sql_engine::statement::Literal;
use sqlparser::ast::{BinaryOperator, Expr, Ident, Statement, UnaryOperator, Value};
use sqlparser::dialect::MySqlDialect;
use sqlparser::parser::Parser;

// In this dialect a name may begin with `$`.
fn statement(sql: &str) -> Statement {
    Parser::parse_sql(&MySqlDialect {}, sql)
        .expect("a statement")
        .pop()
        .expect("single query")
}

fn named(name: &str) -> Expr {
    Expr::Identifier(Ident {
        value: name.to_owned(),
        quote_style: None,
    })
}

fn number(text: &str) -> Literal {
    Literal::Number {
        negative: false,
        text: text.to_owned(),
    }
}

#[test]
fn placeholders_are_found_by_their_names() {
    assert_eq!(find_place("$1", 2), Place::Param(0));
    assert_eq!(find_place("$2", 2), Place::Param(1));
    assert_eq!(find_place("$02", 2), Place::Param(1));
    assert_eq!(find_place("$3", 2), Place::Nowhere);
    assert_eq!(find_place("$0", 2), Place::Nowhere);
    assert_eq!(find_place("$1", 0), Place::Nowhere);
    assert_eq!(find_place("$99999999999999999999999", 2), Place::Nowhere);
    assert_eq!(find_place("$", 2), Place::Column);
    assert_eq!(find_place("$a", 2), Place::Column);
    assert_eq!(find_place("$1a", 2), Place::Column);
    assert_eq!(find_place("a$1", 2), Place::Column);
    assert_eq!(find_place("1", 2), Place::Column);
    assert_eq!(find_place("", 2), Place::Column);
}

#[test]
fn values_are_written_as_a_statement_writes_them() {
    assert_eq!(write_literal(&Literal::Null), Expr::Value(Value::Null));
    assert_eq!(write_literal(&Literal::Bool(true)), Expr::Value(Value::Boolean(true)));
    assert_eq!(write_literal(&number("12")), Expr::Value(Value::Number("12".to_owned())));
    assert_eq!(
        write_literal(&Literal::Number { negative: true, text: "12".to_owned() }),
        Expr::UnaryOp {
            op: UnaryOperator::Minus,
            expr: Box::new(Expr::Value(Value::Number("12".to_owned()))),
        }
    );
    assert_eq!(
        write_literal(&Literal::Text("it's".to_owned())),
        Expr::Value(Value::SingleQuotedString("it's".to_owned()))
    );
    assert_eq!(write_literal(&Literal::Other), Expr::Wildcard);
}

#[test]
fn parameters_are_written_by_their_values() {
    assert_eq!(write_parameter(&PostgreSqlValue::Null), Some(Literal::Null));
    assert_eq!(write_parameter(&PostgreSqlValue::True), Some(Literal::Bool(true)));
    assert_eq!(write_parameter(&PostgreSqlValue::False), Some(Literal::Bool(false)));
    assert_eq!(write_parameter(&PostgreSqlValue::Int16(0)), Some(number("0")));
    assert_eq!(write_parameter(&PostgreSqlValue::Int16(i16::MAX)), Some(number("32767")));
    assert_eq!(
        write_parameter(&PostgreSqlValue::Int16(i16::MIN)),
        Some(Literal::Number { negative: true, text: "32768".to_owned() })
    );
    assert_eq!(
        write_parameter(&PostgreSqlValue::Int32(-1)),
        Some(Literal::Number { negative: true, text: "1".to_owned() })
    );
    assert_eq!(
        write_parameter(&PostgreSqlValue::Int64(i64::MIN)),
        Some(Literal::Number { negative: true, text: "9223372036854775808".to_owned() })
    );
    assert_eq!(
        write_parameter(&PostgreSqlValue::Int64(i64::MAX)),
        Some(number("9223372036854775807"))
    );
    assert_eq!(
        write_parameter(&PostgreSqlValue::String("abc".to_owned())),
        Some(Literal::Text("abc".to_owned()))
    );
    assert_eq!(write_parameter(&PostgreSqlValue::Float32(1.5f32.to_bits())), None);
    assert_eq!(write_parameter(&PostgreSqlValue::Float64(1.5f64.to_bits())), None);
    assert_eq!(
        write_parameters(&vec![PostgreSqlValue::Int16(1), PostgreSqlValue::Null]),
        Some(vec![number("1"), Literal::Null])
    );
    assert_eq!(
        write_parameters(&vec![PostgreSqlValue::Int16(1), PostgreSqlValue::Float32(0)]),
        None
    );
    assert_eq!(write_parameters(&vec![]), Some(vec![]));
}

#[test]
fn expressions_are_bound_through_operators_and_brackets() {
    let written = Expr::BinaryOp {
        left: Box::new(named("a")),
        op: BinaryOperator::Gt,
        right: Box::new(Expr::Nested(Box::new(Expr::UnaryOp {
            op: UnaryOperator::Plus,
            expr: Box::new(named("$2")),
        }))),
    };
    let bound = Expr::BinaryOp {
        left: Box::new(named("a")),
        op: BinaryOperator::Gt,
        right: Box::new(Expr::Nested(Box::new(Expr::UnaryOp {
            op: UnaryOperator::Plus,
            expr: Box::new(Expr::Value(Value::Number("5".to_owned()))),
        }))),
    };
    let params = vec![Literal::Null, number("5")];

    assert_eq!(bind_expression(&written, &params, MAX_DEPTH), Some(bound.clone()));
    assert_eq!(bind_expression(&written, &params, 3), Some(bound.clone()));
    assert_eq!(bind_expression(&written, &params, 2), None);
    assert_eq!(bind_expression(&written, &vec![Literal::Null], MAX_DEPTH), None);
    assert_eq!(bind_expression(&bound, &vec![], 3), Some(bound));
    assert_eq!(bind_expression(&named("$1"), &params, 0), Some(Expr::Value(Value::Null)));
    assert_eq!(
        bind_expression(&Expr::IsNull(Box::new(named("$1"))), &params, MAX_DEPTH),
        Some(Expr::IsNull(Box::new(named("$1"))))
    );
}

#[test]
fn an_insert_is_bound_to_its_parameters() {
    let prepared = statement("INSERT INTO s.t (a, b, c) VALUES ($1, 'y', $2), ($2, $3, -2)");
    let values = vec![
        PostgreSqlValue::Int16(-1),
        PostgreSqlValue::String("x".to_owned()),
        PostgreSqlValue::True,
    ];

    assert_eq!(
        bind(&prepared, &values),
        Ok(statement("INSERT INTO s.t (a, b, c) VALUES (-1, 'y', 'x'), ('x', true, -2)"))
    );
    assert_eq!(bind(&prepared, &values[..2].to_vec()), Err(()));
    assert_eq!(bind(&prepared, &vec![]), Err(()));
}

#[test]
fn an_update_is_bound_to_its_parameters() {
    let prepared = statement("UPDATE s.t SET a = $2, b = 1, c = $1");
    let values = vec![PostgreSqlValue::Null, PostgreSqlValue::Int64(10)];

    assert_eq!(
        bind(&prepared, &values),
        Ok(statement("UPDATE s.t SET a = 10, b = 1, c = NULL"))
    );
    assert_eq!(bind(&prepared, &vec![PostgreSqlValue::Null]), Err(()));
}

#[test]
fn a_delete_is_bound_to_its_parameters() {
    let prepared = statement("DELETE FROM s.t WHERE a >= $1 + 1");

    assert_eq!(
        bind(&prepared, &vec![PostgreSqlValue::Int32(4)]),
        Ok(statement("DELETE FROM s.t WHERE a >= 4 + 1"))
    );
    assert_eq!(bind(&prepared, &vec![]), Err(()));
    assert_eq!(
        bind(&statement("DELETE FROM s.t"), &vec![PostgreSqlValue::Int32(4)]),
        Ok(statement("DELETE FROM s.t"))
    );
}

#[test]
fn other_statements_stay_as_they_are() {
    for sql in ["SELECT a FROM s.t WHERE a = $1", "CREATE SCHEMA s", "DROP TABLE s.t", "SET x = 1"].iter() {
        assert_eq!(bind(&statement(sql), &vec![]), Ok(statement(sql)));
    }
}

#[test]
fn floating_point_parameters_are_not_bound() {
    let prepared = statement("INSERT INTO s.t VALUES ($1)");

    assert_eq!(bind(&prepared, &vec![PostgreSqlValue::Float64(2.5f64.to_bits())]), Err(()));
    assert_eq!(
        bind(&statement("CREATE SCHEMA s"), &vec![PostgreSqlValue::Float32(2.5f32.to_bits())]),
        Err(())
    );
    assert_eq!(
        bind_literals(&prepared, &vec![Literal::Number { negative: false, text: "2.5".to_owned() }]),
        Ok(statement("INSERT INTO s.t VALUES (2.5)"))
    );
}
