//! Expressions as statements write them, turned into expressions that can
//! be evaluated against rows.

use crate::decimal::{decimal_from_text, decimal_of_text, is_written_plainly, written_plainly};
use crate::expr_eval::{
    operator_text, unary_operator_text, BinaryOp, ScalarOp, ScalarValue, UnaryOp,
};
use crate::metadata::ColumnDefinition;
use crate::statement::{literal_of, node_of, read_literal, read_node, ExprNode, Literal};
use sqlparser::ast::Expr;
use vstd::prelude::*;

verus! {

/// How many operators and brackets of an expression may stand one inside
/// the other.
pub const MAX_DEPTH: usize = 128;

/// The operator with two operands that a sign stands for.
pub open spec fn operator_of(sign: Seq<char>) -> Option<BinaryOp> {
    if sign == "+"@ {
        Some(BinaryOp::Add)
    } else if sign == "-"@ {
        Some(BinaryOp::Sub)
    } else if sign == "*"@ {
        Some(BinaryOp::Mul)
    } else if sign == "/"@ {
        Some(BinaryOp::Div)
    } else if sign == "%"@ {
        Some(BinaryOp::Mod)
    } else if sign == "||"@ {
        Some(BinaryOp::Concat)
    } else if sign == "&"@ {
        Some(BinaryOp::BitwiseAnd)
    } else if sign == "|"@ {
        Some(BinaryOp::BitwiseOr)
    } else if sign == "="@ {
        Some(BinaryOp::Eq)
    } else if sign == "<>"@ {
        Some(BinaryOp::NotEq)
    } else if sign == "<"@ {
        Some(BinaryOp::Lt)
    } else if sign == "<="@ {
        Some(BinaryOp::LtEq)
    } else if sign == ">"@ {
        Some(BinaryOp::Gt)
    } else if sign == ">="@ {
        Some(BinaryOp::GtEq)
    } else {
        None
    }
}

/// The operator with one operand that a sign stands for.
pub open spec fn unary_operator_of(sign: Seq<char>) -> Option<UnaryOp> {
    if sign == "-"@ {
        Some(UnaryOp::Minus)
    } else if sign == "+"@ {
        Some(UnaryOp::Plus)
    } else if sign == "NOT"@ {
        Some(UnaryOp::Not)
    } else {
        None
    }
}

/// Every operator with two operands is the one that its sign stands for.
pub proof fn lemma_operator_of_its_sign(operator: BinaryOp)
    ensures
        operator_of(operator_text(operator)) == Some(operator),
{
    reveal_strlit("+");
    reveal_strlit("-");
    reveal_strlit("*");
    reveal_strlit("/");
    reveal_strlit("%");
    reveal_strlit("||");
    reveal_strlit("&");
    reveal_strlit("|");
    reveal_strlit("=");
    reveal_strlit("<>");
    reveal_strlit("<");
    reveal_strlit("<=");
    reveal_strlit(">");
    reveal_strlit(">=");
    let sign = operator_text(operator);
    assert(sign.len() == 1 || sign.len() == 2);
    assert("+"@[0] == '+' && "-"@[0] == '-' && "*"@[0] == '*' && "/"@[0] == '/' && "%"@[0] == '%');
    assert("||"@[0] == '|' && "&"@[0] == '&' && "|"@[0] == '|' && "="@[0] == '=');
    assert("<>"@[0] == '<' && "<"@[0] == '<' && "<="@[0] == '<' && ">"@[0] == '>' && ">="@[0]
        == '>');
    assert("<>"@[1] == '>' && "<="@[1] == '=' && ">="@[1] == '=' && "||"@[1] == '|');
}

/// Every operator with one operand is the one that its sign stands for.
pub proof fn lemma_unary_operator_of_its_sign(operator: UnaryOp)
    ensures
        unary_operator_of(unary_operator_text(operator)) == Some(operator),
{
    reveal_strlit("+");
    reveal_strlit("-");
    reveal_strlit("NOT");
    assert("+"@[0] == '+' && "-"@[0] == '-' && "NOT"@[0] == 'N');
}

/// Whether the sign is the text.
fn is(sign: &String, text: &str) -> (same: bool)
    ensures
        same == (sign@ == text@),
{
    *sign == text.to_owned()
}

/// The operator with two operands that the sign stands for.
pub fn operator_by_sign(sign: &String) -> (operator: Option<BinaryOp>)
    ensures
        operator == operator_of(sign@),
{
    if is(sign, "+") {
        Some(BinaryOp::Add)
    } else if is(sign, "-") {
        Some(BinaryOp::Sub)
    } else if is(sign, "*") {
        Some(BinaryOp::Mul)
    } else if is(sign, "/") {
        Some(BinaryOp::Div)
    } else if is(sign, "%") {
        Some(BinaryOp::Mod)
    } else if is(sign, "||") {
        Some(BinaryOp::Concat)
    } else if is(sign, "&") {
        Some(BinaryOp::BitwiseAnd)
    } else if is(sign, "|") {
        Some(BinaryOp::BitwiseOr)
    } else if is(sign, "=") {
        Some(BinaryOp::Eq)
    } else if is(sign, "<>") {
        Some(BinaryOp::NotEq)
    } else if is(sign, "<") {
        Some(BinaryOp::Lt)
    } else if is(sign, "<=") {
        Some(BinaryOp::LtEq)
    } else if is(sign, ">") {
        Some(BinaryOp::Gt)
    } else if is(sign, ">=") {
        Some(BinaryOp::GtEq)
    } else {
        None
    }
}

/// The operator with one operand that the sign stands for.
pub fn unary_operator_by_sign(sign: &String) -> (operator: Option<UnaryOp>)
    ensures
        operator == unary_operator_of(sign@),
{
    if is(sign, "-") {
        Some(UnaryOp::Minus)
    } else if is(sign, "+") {
        Some(UnaryOp::Plus)
    } else if is(sign, "NOT") {
        Some(UnaryOp::Not)
    } else {
        None
    }
}

/// The value that a literal writes: null, a boolean, a text, or the number
/// that a text of digits and points writes. Nothing for a number that is
/// written otherwise or that cannot be read, and for what is no value.
pub open spec fn value_of(literal: Literal) -> Option<ScalarValue> {
    match literal {
        Literal::Null => Some(ScalarValue::Null),
        Literal::Bool(b) => Some(ScalarValue::Bool(b)),
        Literal::Text(text) => Some(ScalarValue::String(text)),
        Literal::Number { negative, text } => if !negative && written_plainly(text@) {
            match decimal_of_text(text@) {
                Some(number) => Some(ScalarValue::Number(number)),
                None => None,
            }
        } else {
            None
        },
        Literal::Other => None,
    }
}

/// The value that a literal writes.
pub fn value_written(literal: Literal) -> (value: Option<ScalarValue>)
    ensures
        value == value_of(literal),
{
    match literal {
        Literal::Null => Some(ScalarValue::Null),
        Literal::Bool(b) => Some(ScalarValue::Bool(b)),
        Literal::Text(text) => Some(ScalarValue::String(text)),
        Literal::Number { negative, text } => {
            if !negative && is_written_plainly(text.as_str()) {
                match decimal_from_text(text.as_str()) {
                    Some(number) => Some(ScalarValue::Number(number)),
                    None => None,
                }
            } else {
                None
            }
        },
        Literal::Other => None,
    }
}

/// The expression that a tree of the parser writes, read to the given
/// depth: a column, a value, an operator of the evaluator applied to what
/// its operands write, or what an expression in brackets writes. Nothing
/// where the tree holds anything else or is deeper.
pub open spec fn expression_of(expr: Expr, depth: nat) -> Option<ScalarOp>
    decreases depth,
{
    match node_of(expr) {
        ExprNode::Column(name) => Some(ScalarOp::Column(name)),
        ExprNode::Value => match value_of(literal_of(expr)) {
            Some(value) => Some(ScalarOp::Value(value)),
            None => None,
        },
        ExprNode::Binary { sign, left, right } => if depth == 0 {
            None
        } else {
            match operator_of(sign@) {
                None => None,
                Some(operator) => match expression_of(left, (depth - 1) as nat) {
                    None => None,
                    Some(left) => match expression_of(right, (depth - 1) as nat) {
                        None => None,
                        Some(right) => Some(
                            ScalarOp::Binary(operator, Box::new(left), Box::new(right)),
                        ),
                    },
                },
            }
        },
        ExprNode::Unary { sign, operand } => if depth == 0 {
            None
        } else {
            match unary_operator_of(sign@) {
                None => None,
                Some(operator) => match expression_of(operand, (depth - 1) as nat) {
                    None => None,
                    Some(operand) => Some(ScalarOp::Unary(operator, Box::new(operand))),
                },
            }
        },
        ExprNode::Nested(inner) => if depth == 0 {
            None
        } else {
            expression_of(inner, (depth - 1) as nat)
        },
        ExprNode::Other => None,
    }
}

/// Reads the expression that a tree of the parser writes, to the given
/// depth.
pub fn read_expression(expr: &Expr, depth: usize) -> (op: Option<ScalarOp>)
    ensures
        op == expression_of(*expr, depth as nat),
    decreases depth,
{
    match read_node(expr) {
        ExprNode::Column(name) => Some(ScalarOp::Column(name)),
        ExprNode::Value => match value_written(read_literal(expr)) {
            Some(value) => Some(ScalarOp::Value(value)),
            None => None,
        },
        ExprNode::Binary { sign, left, right } => {
            if depth == 0 {
                return None;
            }
            let operator = match operator_by_sign(&sign) {
                Some(operator) => operator,
                None => {
                    return None;
                },
            };
            let left = match read_expression(&left, depth - 1) {
                Some(left) => left,
                None => {
                    return None;
                },
            };
            match read_expression(&right, depth - 1) {
                Some(right) => Some(ScalarOp::Binary(operator, Box::new(left), Box::new(right))),
                None => None,
            }
        },
        ExprNode::Unary { sign, operand } => {
            if depth == 0 {
                return None;
            }
            let operator = match unary_operator_by_sign(&sign) {
                Some(operator) => operator,
                None => {
                    return None;
                },
            };
            match read_expression(&operand, depth - 1) {
                Some(operand) => Some(ScalarOp::Unary(operator, Box::new(operand))),
                None => None,
            }
        },
        ExprNode::Nested(inner) => {
            if depth == 0 {
                return None;
            }
            read_expression(&inner, depth - 1)
        },
        ExprNode::Other => None,
    }
}

/// Whether the table has a column of the name.
pub open spec fn has_column(numbered: Seq<(u64, ColumnDefinition)>, name: Seq<char>) -> bool {
    exists|i: int| 0 <= i < numbered.len() && (#[trigger] numbered[i]).1.name@ == name
}

/// The name of the first column of the expression, from left to right,
/// that the table does not have.
pub open spec fn missing_column(numbered: Seq<(u64, ColumnDefinition)>, op: ScalarOp) -> Option<
    String,
>
    decreases op,
{
    match op {
        ScalarOp::Column(name) => if has_column(numbered, name@) {
            None
        } else {
            Some(name)
        },
        ScalarOp::Value(_) => None,
        ScalarOp::Binary(_, left, right) => match missing_column(numbered, *left) {
            Some(name) => Some(name),
            None => missing_column(numbered, *right),
        },
        ScalarOp::Unary(_, operand) => missing_column(numbered, *operand),
    }
}

/// Whether the table has a column of the name.
pub fn find_column_named(numbered: &Vec<(u64, ColumnDefinition)>, name: &String) -> (found: bool)
    ensures
        found == has_column(numbered@, name@),
{
    let mut i: usize = 0;
    while i < numbered.len()
        invariant
            i <= numbered.len(),
            forall|j: int| 0 <= j < i ==> (#[trigger] numbered@[j]).1.name@ != name@,
        decreases numbered.len() - i,
    {
        if numbered[i].1.name == *name {
            return true;
        }
        i = i + 1;
    }
    false
}

/// The name of the first column of the expression that the table does not
/// have.
pub fn find_missing_column(numbered: &Vec<(u64, ColumnDefinition)>, op: &ScalarOp) -> (missing:
    Option<String>)
    ensures
        missing == missing_column(numbered@, *op),
    decreases op,
{
    match op {
        ScalarOp::Column(name) => {
            if find_column_named(numbered, name) {
                None
            } else {
                Some(name.clone())
            }
        },
        ScalarOp::Value(_) => None,
        ScalarOp::Binary(_, left, right) => match find_missing_column(numbered, &**left) {
            Some(name) => Some(name),
            None => find_missing_column(numbered, &**right),
        },
        ScalarOp::Unary(_, operand) => find_missing_column(numbered, &**operand),
    }
}

} // verus!
