//! The values of parameters in the place of the placeholders of a
//! statement.
//!
//! A placeholder is written as a column whose name is `$` and the number
//! of a parameter, counted from one. Binding a statement builds a statement
//! that says the same, but for the placeholders among the values of an
//! `INSERT`, among the values of the assignments of an `UPDATE` and in the
//! `WHERE` of a `DELETE`: each of these writes the value of its parameter.

use crate::coercion::{digits_value, parse_digits, ParsedDigits};
use crate::expression::MAX_DEPTH;
use crate::protocol::PostgreSqlValue;
use crate::statement::{
    binary_with, delete_of, delete_with_selection, insert_of, insert_with_rows, literal_of,
    nested_with, node_of, read_delete, read_insert, read_node, read_update, unary_with, update_of,
    update_with_values, without_sign, write_negated, write_value, ExprNode, Literal,
};
use crate::text::{decimal, spec_decimal};
use sqlparser::ast::{Expr, Statement};
use vstd::prelude::*;
use vstd::string::StrSliceExecFns;

verus! {

/// What the name of a column stands for.
#[derive(Debug, Copy, Clone, PartialEq, Eq, Structural)]
pub enum Place {
    /// A column: the name is no placeholder.
    Column,
    /// The parameter at the position, counted from zero.
    Param(usize),
    /// A parameter that there is not.
    Nowhere,
}

/// The number that a placeholder names: the name is `$` and the digits of
/// the number.
pub open spec fn placeholder_of(name: Seq<char>) -> Option<nat> {
    if name.len() > 0 && name[0] == '$' {
        digits_value(name.skip(1))
    } else {
        None
    }
}

/// What a name stands for where there are `count` parameters.
pub open spec fn place_of(name: Seq<char>, count: nat) -> Place {
    match placeholder_of(name) {
        None => Place::Column,
        Some(number) => if 1 <= number <= count {
            Place::Param((number - 1) as usize)
        } else {
            Place::Nowhere
        },
    }
}

/// What the name stands for where there are `count` parameters.
pub fn find_place(name: &str, count: usize) -> (place: Place)
    ensures
        place == place_of(name@, count as nat),
{
    let len = name.unicode_len();
    if len == 0 || name.get_char(0) != '$' {
        return Place::Column;
    }
    let rest = name.substring_char(1, len);
    assert(rest@ =~= name@.skip(1));
    match parse_digits(rest) {
        ParsedDigits::Invalid => Place::Column,
        ParsedDigits::TooLarge => Place::Nowhere,
        ParsedDigits::Value(number) => {
            if 1 <= number && number <= count as u64 {
                Place::Param((number - 1) as usize)
            } else {
                Place::Nowhere
            }
        },
    }
}

/// Whether the expression writes the value as a statement writes it: a
/// number with a minus as a minus before the number, what is no value as
/// what is neither a value nor a column, and every other value as a value.
pub open spec fn writes(expr: Expr, literal: Literal) -> bool {
    &&& literal_of(expr) == literal
    &&& match literal {
        Literal::Number { negative, text } => if negative {
            &&& node_of(expr) matches ExprNode::Unary { sign, operand }
            &&& sign@ == "-"@
            &&& node_of(operand) == ExprNode::Value
            &&& literal_of(operand) == without_sign(literal)
        } else {
            node_of(expr) == ExprNode::Value
        },
        Literal::Other => node_of(expr) == ExprNode::Other,
        _ => node_of(expr) == ExprNode::Value,
    }
}

/// The expression that writes the value.
pub fn write_literal(literal: &Literal) -> (expr: Expr)
    ensures
        writes(expr, *literal),
{
    let unsigned = write_value(literal);
    match literal {
        Literal::Number { negative, text } => {
            if *negative {
                write_negated(unsigned)
            } else {
                unsigned
            }
        },
        _ => unsigned,
    }
}

/// Whether every placeholder of the expression names a parameter, and the
/// expression is not deeper than `depth` operators and brackets.
pub open spec fn can_bind(expr: Expr, count: nat, depth: nat) -> bool
    decreases depth,
{
    match node_of(expr) {
        ExprNode::Column(name) => !(place_of(name@, count) is Nowhere),
        ExprNode::Binary { sign, left, right } => depth > 0 && can_bind(
            left,
            count,
            (depth - 1) as nat,
        ) && can_bind(right, count, (depth - 1) as nat),
        ExprNode::Unary { sign, operand } => depth > 0 && can_bind(
            operand,
            count,
            (depth - 1) as nat,
        ),
        ExprNode::Nested(inner) => depth > 0 && can_bind(inner, count, (depth - 1) as nat),
        ExprNode::Value => true,
        ExprNode::Other => true,
    }
}

/// Whether `bound` is the expression with the values in the place of its
/// placeholders: a placeholder writes the value of its parameter; a
/// column, a value and what is neither stay; and an operator and a pair
/// of brackets hold what their expressions are bound as.
pub open spec fn bound_as(expr: Expr, params: Seq<Literal>, depth: nat, bound: Expr) -> bool
    decreases depth,
{
    match node_of(expr) {
        ExprNode::Column(name) => match place_of(name@, params.len()) {
            Place::Column => bound == expr,
            Place::Param(position) => position < params.len() && writes(
                bound,
                params[position as int],
            ),
            Place::Nowhere => false,
        },
        ExprNode::Binary { sign, left, right } => {
            &&& depth > 0
            &&& node_of(bound) matches ExprNode::Binary {
                sign: bound_sign,
                left: bound_left,
                right: bound_right,
            }
            &&& bound_sign == sign
            &&& bound_as(left, params, (depth - 1) as nat, bound_left)
            &&& bound_as(right, params, (depth - 1) as nat, bound_right)
        },
        ExprNode::Unary { sign, operand } => {
            &&& depth > 0
            &&& node_of(bound) matches ExprNode::Unary { sign: bound_sign, operand: bound_operand }
            &&& bound_sign == sign
            &&& bound_as(operand, params, (depth - 1) as nat, bound_operand)
        },
        ExprNode::Nested(inner) => {
            &&& depth > 0
            &&& node_of(bound) matches ExprNode::Nested(bound_inner)
            &&& bound_as(inner, params, (depth - 1) as nat, bound_inner)
        },
        ExprNode::Value => bound == expr,
        ExprNode::Other => bound == expr,
    }
}

/// The expression with the values in the place of its placeholders.
/// Nothing where a placeholder names no parameter or the expression is
/// deeper than `depth`.
pub fn bind_expression(expr: &Expr, params: &Vec<Literal>, depth: usize) -> (bound: Option<Expr>)
    ensures
        match bound {
            Some(bound) => can_bind(*expr, params@.len(), depth as nat) && bound_as(
                *expr,
                params@,
                depth as nat,
                bound,
            ),
            None => !can_bind(*expr, params@.len(), depth as nat),
        },
    decreases depth,
{
    match read_node(expr) {
        ExprNode::Column(name) => match find_place(name.as_str(), params.len()) {
            Place::Column => Some(expr.clone()),
            Place::Param(position) => Some(write_literal(&params[position])),
            Place::Nowhere => None,
        },
        ExprNode::Binary { sign, left, right } => {
            if depth == 0 {
                return None;
            }
            let bound_left = match bind_expression(&left, params, depth - 1) {
                Some(bound) => bound,
                None => {
                    return None;
                },
            };
            match bind_expression(&right, params, depth - 1) {
                Some(bound_right) => Some(binary_with(expr, bound_left, bound_right)),
                None => None,
            }
        },
        ExprNode::Unary { sign, operand } => {
            if depth == 0 {
                return None;
            }
            match bind_expression(&operand, params, depth - 1) {
                Some(bound) => Some(unary_with(expr, bound)),
                None => None,
            }
        },
        ExprNode::Nested(inner) => {
            if depth == 0 {
                return None;
            }
            match bind_expression(&inner, params, depth - 1) {
                Some(bound) => Some(nested_with(bound)),
                None => None,
            }
        },
        ExprNode::Value => Some(expr.clone()),
        ExprNode::Other => Some(expr.clone()),
    }
}

/// Whether each of the expressions can be bound.
pub open spec fn all_can_bind(exprs: Seq<Expr>, count: nat) -> bool {
    forall|i: int| 0 <= i < exprs.len() ==> can_bind(#[trigger] exprs[i], count, MAX_DEPTH as nat)
}

/// Whether `bound` holds, at each place, what the expression at that place
/// is bound as.
pub open spec fn all_bound(exprs: Seq<Expr>, params: Seq<Literal>, bound: Seq<Expr>) -> bool {
    &&& bound.len() == exprs.len()
    &&& forall|i: int|
        0 <= i < exprs.len() ==> bound_as(exprs[i], params, MAX_DEPTH as nat, #[trigger] bound[i])
}

/// The expressions, each with the values in the place of its placeholders.
pub fn bind_all(exprs: &Vec<Expr>, params: &Vec<Literal>) -> (bound: Option<Vec<Expr>>)
    ensures
        match bound {
            Some(bound) => all_can_bind(exprs@, params@.len()) && all_bound(
                exprs@,
                params@,
                bound@,
            ),
            None => !all_can_bind(exprs@, params@.len()),
        },
{
    let mut bound: Vec<Expr> = Vec::new();
    let mut i: usize = 0;
    while i < exprs.len()
        invariant
            i <= exprs.len(),
            bound@.len() == i,
            forall|k: int| 0 <= k < i ==> can_bind(#[trigger] exprs@[k], params@.len(), MAX_DEPTH as nat),
            forall|k: int|
                0 <= k < i ==> bound_as(exprs@[k], params@, MAX_DEPTH as nat, #[trigger] bound@[k]),
        decreases exprs.len() - i,
    {
        match bind_expression(&exprs[i], params, MAX_DEPTH) {
            Some(expr) => {
                bound.push(expr);
            },
            None => {
                return None;
            },
        }
        i = i + 1;
    }
    Some(bound)
}

/// Whether each expression of each row can be bound.
pub open spec fn rows_can_bind(rows: Seq<Vec<Expr>>, count: nat) -> bool {
    forall|r: int| 0 <= r < rows.len() ==> all_can_bind((#[trigger] rows[r])@, count)
}

/// Whether `bound` holds, at each place of each row, what the expression
/// at that place is bound as.
pub open spec fn rows_bound(rows: Seq<Vec<Expr>>, params: Seq<Literal>, bound: Seq<Vec<Expr>>) -> bool {
    &&& bound.len() == rows.len()
    &&& forall|r: int| 0 <= r < rows.len() ==> all_bound(rows[r]@, params, (#[trigger] bound[r])@)
}

/// The rows, each expression with the values in the place of its
/// placeholders.
pub fn bind_rows(rows: &Vec<Vec<Expr>>, params: &Vec<Literal>) -> (bound: Option<Vec<Vec<Expr>>>)
    ensures
        match bound {
            Some(bound) => rows_can_bind(rows@, params@.len()) && rows_bound(
                rows@,
                params@,
                bound@,
            ),
            None => !rows_can_bind(rows@, params@.len()),
        },
{
    let mut bound: Vec<Vec<Expr>> = Vec::new();
    let mut r: usize = 0;
    while r < rows.len()
        invariant
            r <= rows.len(),
            bound@.len() == r,
            forall|k: int| 0 <= k < r ==> all_can_bind((#[trigger] rows@[k])@, params@.len()),
            forall|k: int| 0 <= k < r ==> all_bound(rows@[k]@, params@, (#[trigger] bound@[k])@),
        decreases rows.len() - r,
    {
        match bind_all(&rows[r], params) {
            Some(row) => {
                bound.push(row);
            },
            None => {
                return None;
            },
        }
        r = r + 1;
    }
    Some(bound)
}

/// The expressions of assignments, in order.
pub open spec fn values_of(assignments: Seq<(String, Expr)>) -> Seq<Expr> {
    assignments.map_values(|assignment: (String, Expr)| assignment.1)
}

/// The expressions of the assignments, copied in order.
pub fn copy_values(assignments: &Vec<(String, Expr)>) -> (values: Vec<Expr>)
    ensures
        values@ == values_of(assignments@),
{
    let mut values: Vec<Expr> = Vec::new();
    let mut i: usize = 0;
    while i < assignments.len()
        invariant
            i <= assignments.len(),
            values@ == values_of(assignments@).take(i as int),
        decreases assignments.len() - i,
    {
        values.push(assignments[i].1.clone());
        i = i + 1;
        assert(values@ =~= values_of(assignments@).take(i as int));
    }
    assert(values_of(assignments@).take(i as int) =~= values_of(assignments@));
    values
}

/// Whether every placeholder among the values of an `INSERT`, among the
/// values of the assignments of an `UPDATE` or in the `WHERE` of a
/// `DELETE` names a parameter, and none of these expressions is deeper
/// than the limit. It holds of every other statement.
pub open spec fn statement_binds(statement: Statement, count: nat) -> bool {
    match insert_of(statement) {
        Some(parts) => rows_can_bind(parts.rows@, count),
        None => match update_of(statement) {
            Some(parts) => all_can_bind(values_of(parts.assignments@), count),
            None => match delete_of(statement) {
                Some(parts) => match parts.selection {
                    Some(expr) => can_bind(expr, count, MAX_DEPTH as nat),
                    None => true,
                },
                None => true,
            },
        },
    }
}

/// Whether `bound` is the statement with the values in the place of its
/// placeholders: an `INSERT` into the same table and columns, an `UPDATE`
/// of the same table and columns or a `DELETE` from the same table, with
/// each expression bound; and every other statement as it is.
pub open spec fn statement_bound(statement: Statement, params: Seq<Literal>, bound: Statement) -> bool {
    match insert_of(statement) {
        Some(parts) => {
            &&& insert_of(bound) matches Some(bound_parts)
            &&& bound_parts.name == parts.name
            &&& bound_parts.columns == parts.columns
            &&& rows_bound(parts.rows@, params, bound_parts.rows@)
        },
        None => match update_of(statement) {
            Some(parts) => {
                &&& update_of(bound) matches Some(bound_parts)
                &&& bound_parts.name == parts.name
                &&& bound_parts.filtered == parts.filtered
                &&& bound_parts.assignments@.len() == parts.assignments@.len()
                &&& forall|i: int|
                    0 <= i < parts.assignments@.len() ==> (#[trigger] bound_parts.assignments@[i]).0
                        == parts.assignments@[i].0 && bound_as(
                        parts.assignments@[i].1,
                        params,
                        MAX_DEPTH as nat,
                        bound_parts.assignments@[i].1,
                    )
            },
            None => match delete_of(statement) {
                Some(parts) => match parts.selection {
                    Some(expr) => {
                        &&& delete_of(bound) matches Some(bound_parts)
                        &&& bound_parts.name == parts.name
                        &&& bound_parts.selection matches Some(selection)
                        &&& bound_as(expr, params, MAX_DEPTH as nat, selection)
                    },
                    None => bound == statement,
                },
                None => bound == statement,
            },
        },
    }
}

/// The statement with the values in the place of its placeholders. It
/// fails where a placeholder names no parameter or an expression is
/// deeper than the limit.
pub fn bind_literals(statement: &Statement, params: &Vec<Literal>) -> (bound: Result<Statement, ()>)
    ensures
        match bound {
            Ok(bound) => statement_binds(*statement, params@.len()) && statement_bound(
                *statement,
                params@,
                bound,
            ),
            Err(_) => !statement_binds(*statement, params@.len()),
        },
{
    if let Some(parts) = read_insert(statement) {
        return match bind_rows(&parts.rows, params) {
            Some(rows) => Ok(insert_with_rows(statement, rows)),
            None => Err(()),
        };
    }
    if let Some(parts) = read_update(statement) {
        let values = copy_values(&parts.assignments);
        return match bind_all(&values, params) {
            Some(bound) => Ok(update_with_values(statement, bound)),
            None => Err(()),
        };
    }
    if let Some(parts) = read_delete(statement) {
        if let Some(expr) = parts.selection {
            return match bind_expression(&expr, params, MAX_DEPTH) {
                Some(selection) => Ok(delete_with_selection(statement, selection)),
                None => Err(()),
            };
        }
    }
    Ok(statement.clone())
}

/// The size of a number.
pub open spec fn size_of(number: int) -> nat {
    if number < 0 {
        (-number) as nat
    } else {
        number as nat
    }
}

/// The number as a statement writes it: its sign and the digits of its
/// size.
pub open spec fn writes_number(literal: Literal, number: int) -> bool {
    &&& literal matches Literal::Number { negative, text }
    &&& negative == (number < 0)
    &&& text@ == spec_decimal(size_of(number))
}

/// Whether the literal is the value of a parameter as a statement writes
/// it. A floating-point number is not written.
pub open spec fn parameter_written(value: PostgreSqlValue, literal: Literal) -> bool {
    match value {
        PostgreSqlValue::Null => literal == Literal::Null,
        PostgreSqlValue::True => literal == Literal::Bool(true),
        PostgreSqlValue::False => literal == Literal::Bool(false),
        PostgreSqlValue::Int16(number) => writes_number(literal, number as int),
        PostgreSqlValue::Int32(number) => writes_number(literal, number as int),
        PostgreSqlValue::Int64(number) => writes_number(literal, number as int),
        PostgreSqlValue::String(text) => literal == Literal::Text(text),
        PostgreSqlValue::Float32(_) => false,
        PostgreSqlValue::Float64(_) => false,
    }
}

/// The number as a statement writes it.
pub fn write_number(number: i64) -> (literal: Literal)
    ensures
        writes_number(literal, number as int),
{
    if number < 0 {
        let size: u64 = (-(number + 1)) as u64 + 1;
        Literal::Number { negative: true, text: decimal(size) }
    } else {
        Literal::Number { negative: false, text: decimal(number as u64) }
    }
}

/// The value of a parameter as a statement writes it; nothing for a
/// floating-point number.
pub fn write_parameter(value: &PostgreSqlValue) -> (literal: Option<Literal>)
    ensures
        match literal {
            Some(literal) => parameter_written(*value, literal),
            None => value is Float32 || value is Float64,
        },
{
    match value {
        PostgreSqlValue::Null => Some(Literal::Null),
        PostgreSqlValue::True => Some(Literal::Bool(true)),
        PostgreSqlValue::False => Some(Literal::Bool(false)),
        PostgreSqlValue::Int16(number) => Some(write_number(*number as i64)),
        PostgreSqlValue::Int32(number) => Some(write_number(*number as i64)),
        PostgreSqlValue::Int64(number) => Some(write_number(*number)),
        PostgreSqlValue::String(text) => Some(Literal::Text(text.clone())),
        PostgreSqlValue::Float32(_) => None,
        PostgreSqlValue::Float64(_) => None,
    }
}

/// Whether the literals are the values of the parameters as a statement
/// writes them.
pub open spec fn parameters_written(values: Seq<PostgreSqlValue>, literals: Seq<Literal>) -> bool {
    &&& literals.len() == values.len()
    &&& forall|i: int|
        0 <= i < values.len() ==> parameter_written(values[i], #[trigger] literals[i])
}

/// Whether none of the values is a floating-point number.
pub open spec fn all_written(values: Seq<PostgreSqlValue>) -> bool {
    forall|i: int|
        0 <= i < values.len() ==> !((#[trigger] values[i]) is Float32 || values[i] is Float64)
}

/// The values of the parameters as a statement writes them; nothing where
/// one of them is a floating-point number.
pub fn write_parameters(values: &Vec<PostgreSqlValue>) -> (literals: Option<Vec<Literal>>)
    ensures
        match literals {
            Some(literals) => all_written(values@) && parameters_written(values@, literals@),
            None => !all_written(values@),
        },
{
    let mut literals: Vec<Literal> = Vec::new();
    let mut i: usize = 0;
    while i < values.len()
        invariant
            i <= values.len(),
            literals@.len() == i,
            forall|k: int|
                0 <= k < i ==> !((#[trigger] values@[k]) is Float32 || values@[k] is Float64),
            forall|k: int| 0 <= k < i ==> parameter_written(values@[k], #[trigger] literals@[k]),
        decreases values.len() - i,
    {
        match write_parameter(&values[i]) {
            Some(literal) => {
                literals.push(literal);
            },
            None => {
                return None;
            },
        }
        i = i + 1;
    }
    Some(literals)
}

/// Whether binding the statement to the values gives `bound`: the
/// statement with the values, as a statement writes them, in the place of
/// its placeholders. It fails where one of the values is a floating-point
/// number, which no column holds, where a placeholder names no value, and
/// where an expression is deeper than the limit.
pub open spec fn bound_to(
    statement: Statement,
    values: Seq<PostgreSqlValue>,
    bound: Result<Statement, ()>,
) -> bool {
    match bound {
        Ok(bound) => {
            &&& all_written(values)
            &&& statement_binds(statement, values.len())
            &&& exists|literals: Seq<Literal>|
                parameters_written(values, literals) && #[trigger] statement_bound(
                    statement,
                    literals,
                    bound,
                )
        },
        Err(_) => !(all_written(values) && statement_binds(statement, values.len())),
    }
}

/// Binds the statement to the values of its parameters.
pub fn bind(statement: &Statement, values: &Vec<PostgreSqlValue>) -> (bound: Result<Statement, ()>)
    ensures
        bound_to(*statement, values@, bound),
{
    let literals = match write_parameters(values) {
        Some(literals) => literals,
        None => {
            return Err(());
        },
    };
    match bind_literals(statement, &literals) {
        Ok(bound) => {
            assert(parameters_written(values@, literals@) && statement_bound(
                *statement,
                literals@,
                bound,
            ));
            Ok(bound)
        },
        Err(_) => Err(()),
    }
}

} // verus!
