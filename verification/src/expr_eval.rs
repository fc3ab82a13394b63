//! Reduction of scalar expressions against a row.

use crate::binary::{Datum, DatumView};
use crate::bytes_order::{bytes_lt, lex_lt};
use crate::decimal::{
    decimal_add, decimal_and, decimal_bitand, decimal_bitor, decimal_difference,
    decimal_div, decimal_eq, decimal_equal, decimal_from_i64, decimal_from_u64, decimal_in_range,
    decimal_is_whole, decimal_is_zero, decimal_less, decimal_lt, decimal_mul, decimal_neg,
    decimal_negated, decimal_of_i64,
    decimal_of_u64, decimal_or, decimal_product, decimal_quotient, decimal_rem,
    decimal_remainder, decimal_sub, decimal_sum, decimal_whole, decimal_zero, in_range,
};
use crate::name_map::NameMap;
use crate::protocol::QueryError;
use bigdecimal::BigDecimal;
use vstd::prelude::*;
use vstd::string::StringExecFns;
use vstd::string::StringSliceAdditionalSpecFns;

verus! {

/// An operator with two operands.
#[derive(Debug, Copy, Clone, PartialEq, Eq, Structural)]
pub enum BinaryOp {
    Add,
    Sub,
    Mul,
    Div,
    Mod,
    Concat,
    BitwiseAnd,
    BitwiseOr,
    Eq,
    NotEq,
    Lt,
    LtEq,
    Gt,
    GtEq,
}

/// An operator with one operand.
#[derive(Debug, Copy, Clone, PartialEq, Eq, Structural)]
pub enum UnaryOp {
    Minus,
    Plus,
    Not,
}

/// The type of an operand as an error names it.
#[derive(Debug, Copy, Clone, PartialEq, Eq, Structural)]
pub enum OperandType {
    Null,
    Bool,
    Number,
    Float,
    String,
}

/// A value of an expression.
#[derive(Debug, Clone, PartialEq, Eq)]
pub enum ScalarValue {
    Null,
    Bool(bool),
    Number(BigDecimal),
    String(String),
}

/// The mathematical value of a [`ScalarValue`].
pub enum Scalar {
    Null,
    Bool(bool),
    Number(BigDecimal),
    String(Seq<char>),
}

impl View for ScalarValue {
    type V = Scalar;

    open spec fn view(&self) -> Scalar {
        match self {
            ScalarValue::Null => Scalar::Null,
            ScalarValue::Bool(b) => Scalar::Bool(*b),
            ScalarValue::Number(n) => Scalar::Number(*n),
            ScalarValue::String(s) => Scalar::String(s@),
        }
    }
}

/// An expression: a column of the row, a value, or an operator applied to
/// two expressions or to one.
#[derive(Debug, PartialEq, Eq)]
pub enum ScalarOp {
    Column(String),
    Value(ScalarValue),
    Binary(BinaryOp, Box<ScalarOp>, Box<ScalarOp>),
    Unary(UnaryOp, Box<ScalarOp>),
}

/// Why an expression has no value.
#[derive(Debug, Clone, PartialEq, Eq)]
pub enum EvalError {
    /// The operator is not defined for operands of these types.
    UndefinedFunction { operator: BinaryOp, left: OperandType, right: OperandType },
    /// The operator is not defined for an operand of this type.
    UndefinedUnaryFunction { unary: UnaryOp, operand: OperandType },
    /// The row has no such column.
    ColumnDoesNotExist(String),
    /// The divisor is zero.
    DivisionByZero,
    /// The scale of a number is beyond the limit.
    NumberOutOfRange,
}

/// The type under which a value is named where an operator of another
/// class than that of its type is applied to it.
pub open spec fn general_type_of(value: Scalar) -> OperandType {
    match value {
        Scalar::Null => OperandType::Null,
        Scalar::Bool(_) => OperandType::Bool,
        Scalar::Number(_) => OperandType::Number,
        Scalar::String(_) => OperandType::String,
    }
}

/// The type under which a number is named where a bitwise operator is
/// applied to it: a number with a fractional part is a float.
pub open spec fn bitwise_type_of(number: BigDecimal) -> OperandType {
    if decimal_is_whole(number) {
        OperandType::Number
    } else {
        OperandType::Float
    }
}

/// The value that a datum of a row stands for in an expression.
pub open spec fn scalar_of(datum: DatumView) -> Scalar {
    match datum {
        DatumView::Null => Scalar::Null,
        DatumView::Bool(b) => Scalar::Bool(b),
        DatumView::Int16(v) => Scalar::Number(decimal_of_i64(v as i64)),
        DatumView::Int32(v) => Scalar::Number(decimal_of_i64(v as i64)),
        DatumView::Int64(v) => Scalar::Number(decimal_of_i64(v)),
        DatumView::UInt64(v) => Scalar::Number(decimal_of_u64(v)),
        DatumView::Str(s) => Scalar::String(s),
    }
}

/// What a comparison says of two operands of which it is known whether
/// they are equal and whether the left is the smaller.
pub open spec fn compared(operator: BinaryOp, equal: bool, less: bool) -> bool {
    match operator {
        BinaryOp::Eq => equal,
        BinaryOp::NotEq => !equal,
        BinaryOp::Lt => less,
        BinaryOp::LtEq => less || equal,
        BinaryOp::Gt => !less && !equal,
        _ => !less,
    }
}

pub open spec fn is_arithmetic(operator: BinaryOp) -> bool {
    operator is Add || operator is Sub || operator is Mul || operator is Div || operator is Mod
}

pub open spec fn is_bitwise(operator: BinaryOp) -> bool {
    operator is BitwiseAnd || operator is BitwiseOr
}

pub open spec fn is_comparison(operator: BinaryOp) -> bool {
    !is_arithmetic(operator) && !is_bitwise(operator) && !(operator is Concat)
}

/// The value of an operator applied to two numbers.
pub open spec fn applied_to_numbers(operator: BinaryOp, left: BigDecimal, right: BigDecimal) -> Result<
    Scalar,
    EvalError,
> {
    if operator is Concat {
        Err(
            EvalError::UndefinedFunction {
                operator,
                left: OperandType::Number,
                right: OperandType::Number,
            },
        )
    } else if !in_range(left) || !in_range(right) {
        Err(EvalError::NumberOutOfRange)
    } else {
        match operator {
            BinaryOp::Add => Ok(Scalar::Number(decimal_sum(left, right))),
            BinaryOp::Sub => Ok(Scalar::Number(decimal_difference(left, right))),
            BinaryOp::Mul => Ok(Scalar::Number(decimal_product(left, right))),
            BinaryOp::Div => if decimal_is_zero(right) {
                Err(EvalError::DivisionByZero)
            } else {
                Ok(Scalar::Number(decimal_quotient(left, right)))
            },
            BinaryOp::Mod => if decimal_is_zero(right) {
                Err(EvalError::DivisionByZero)
            } else {
                Ok(Scalar::Number(decimal_remainder(left, right)))
            },
            BinaryOp::BitwiseAnd | BinaryOp::BitwiseOr => if decimal_is_whole(left)
                && decimal_is_whole(right) {
                Ok(
                    Scalar::Number(
                        if operator is BitwiseAnd {
                            decimal_and(left, right)
                        } else {
                            decimal_or(left, right)
                        },
                    ),
                )
            } else {
                Err(
                    EvalError::UndefinedFunction {
                        operator,
                        left: bitwise_type_of(left),
                        right: bitwise_type_of(right),
                    },
                )
            },
            _ => Ok(
                Scalar::Bool(
                    compared(operator, decimal_equal(left, right), decimal_less(left, right)),
                ),
            ),
        }
    }
}

/// The value of an operator applied to two values: arithmetic and bitwise
/// operators are defined for two numbers, the concatenation for two
/// strings, and a comparison for two values of one type that is not null.
pub open spec fn applied(operator: BinaryOp, left: Scalar, right: Scalar) -> Result<
    Scalar,
    EvalError,
> {
    let undefined = Err(
        EvalError::UndefinedFunction {
            operator,
            left: general_type_of(left),
            right: general_type_of(right),
        },
    );
    match (left, right) {
        (Scalar::Number(left), Scalar::Number(right)) => applied_to_numbers(operator, left, right),
        (Scalar::String(left), Scalar::String(right)) => if operator is Concat {
            Ok(Scalar::String(left + right))
        } else if is_comparison(operator) {
            Ok(
                Scalar::Bool(
                    compared(
                        operator,
                        left == right,
                        lex_lt(vstd::utf8::encode_utf8(left), vstd::utf8::encode_utf8(right)),
                    ),
                ),
            )
        } else {
            undefined
        },
        (Scalar::Bool(left), Scalar::Bool(right)) => if is_comparison(operator) {
            Ok(Scalar::Bool(compared(operator, left == right, !left && right)))
        } else {
            undefined
        },
        _ => undefined,
    }
}

/// The value of an operator applied to one value: the signs are defined
/// for a number, and the negation for a boolean.
pub open spec fn applied_to_one(operator: UnaryOp, operand: Scalar) -> Result<Scalar, EvalError> {
    match (operator, operand) {
        (UnaryOp::Minus, Scalar::Number(number)) => Ok(Scalar::Number(decimal_negated(number))),
        (UnaryOp::Plus, Scalar::Number(number)) => Ok(Scalar::Number(number)),
        (UnaryOp::Not, Scalar::Bool(b)) => Ok(Scalar::Bool(!b)),
        _ => Err(
            EvalError::UndefinedUnaryFunction { unary: operator, operand: general_type_of(operand) },
        ),
    }
}

/// The value of an expression for a row whose columns are found by name.
pub open spec fn reduced(columns: Map<Seq<char>, usize>, row: Seq<DatumView>, op: ScalarOp) -> Result<
    Scalar,
    EvalError,
>
    decreases op,
{
    match op {
        ScalarOp::Column(name) => if columns.contains_key(name@) && columns[name@] < row.len() {
            Ok(scalar_of(row[columns[name@] as int]))
        } else {
            Err(EvalError::ColumnDoesNotExist(name))
        },
        ScalarOp::Value(value) => Ok(value@),
        ScalarOp::Binary(operator, left, right) => match reduced(columns, row, *left) {
            Err(error) => Err(error),
            Ok(left) => match reduced(columns, row, *right) {
                Err(error) => Err(error),
                Ok(right) => applied(operator, left, right),
            },
        },
        ScalarOp::Unary(operator, operand) => match reduced(columns, row, *operand) {
            Err(error) => Err(error),
            Ok(operand) => applied_to_one(operator, operand),
        },
    }
}

/// Whether an expression names no column.
pub open spec fn without_columns(op: ScalarOp) -> bool
    decreases op,
{
    match op {
        ScalarOp::Column(_) => false,
        ScalarOp::Value(_) => true,
        ScalarOp::Binary(_, left, right) => without_columns(*left) && without_columns(*right),
        ScalarOp::Unary(_, operand) => without_columns(*operand),
    }
}

/// An expression that names no column has the same value for every row
/// and for every naming of the columns.
pub proof fn lemma_value_without_columns(
    op: ScalarOp,
    columns: Map<Seq<char>, usize>,
    row: Seq<DatumView>,
    other_columns: Map<Seq<char>, usize>,
    other_row: Seq<DatumView>,
)
    requires
        without_columns(op),
    ensures
        reduced(columns, row, op) == reduced(other_columns, other_row, op),
    decreases op,
{
    match op {
        ScalarOp::Binary(_, left, right) => {
            lemma_value_without_columns(*left, columns, row, other_columns, other_row);
            lemma_value_without_columns(*right, columns, row, other_columns, other_row);
        },
        ScalarOp::Unary(_, operand) => {
            lemma_value_without_columns(*operand, columns, row, other_columns, other_row);
        },
        _ => {},
    }
}

/// Whether the first text comes before the second: texts are ordered by
/// their bytes.
fn text_lt(left: &str, right: &str) -> (less: bool)
    ensures
        less == lex_lt(left.spec_bytes(), right.spec_bytes()),
{
    bytes_lt(left.as_bytes(), right.as_bytes())
}

/// The value that a datum of a row stands for in an expression.
pub fn value_of_datum(datum: &Datum) -> (value: ScalarValue)
    ensures
        value@ == scalar_of(datum@),
{
    match datum {
        Datum::Null => ScalarValue::Null,
        Datum::Bool(b) => ScalarValue::Bool(*b),
        Datum::Int16(v) => ScalarValue::Number(decimal_from_i64(*v as i64)),
        Datum::Int32(v) => ScalarValue::Number(decimal_from_i64(*v as i64)),
        Datum::Int64(v) => ScalarValue::Number(decimal_from_i64(*v)),
        Datum::UInt64(v) => ScalarValue::Number(decimal_from_u64(*v)),
        Datum::Str(s) => ScalarValue::String(s.clone()),
    }
}

/// What a comparison says, from whether the operands are equal and
/// whether the left is the smaller.
pub fn compare(operator: BinaryOp, equal: bool, less: bool) -> (holds: bool)
    ensures
        holds == compared(operator, equal, less),
{
    match operator {
        BinaryOp::Eq => equal,
        BinaryOp::NotEq => !equal,
        BinaryOp::Lt => less,
        BinaryOp::LtEq => less || equal,
        BinaryOp::Gt => !less && !equal,
        _ => !less,
    }
}

/// Applies an operator to two numbers.
pub fn apply_to_numbers(operator: BinaryOp, left: &BigDecimal, right: &BigDecimal) -> (value:
    Result<ScalarValue, EvalError>)
    ensures
        match value {
            Ok(value) => applied_to_numbers(operator, *left, *right) == Ok::<Scalar, EvalError>(
                value@,
            ),
            Err(error) => applied_to_numbers(operator, *left, *right) == Err::<Scalar, EvalError>(
                error,
            ),
        },
{
    if let BinaryOp::Concat = operator {
        return Err(
            EvalError::UndefinedFunction {
                operator,
                left: OperandType::Number,
                right: OperandType::Number,
            },
        );
    }
    if !decimal_in_range(left) || !decimal_in_range(right) {
        return Err(EvalError::NumberOutOfRange);
    }
    match operator {
        BinaryOp::Add => Ok(ScalarValue::Number(decimal_add(left, right))),
        BinaryOp::Sub => Ok(ScalarValue::Number(decimal_sub(left, right))),
        BinaryOp::Mul => Ok(ScalarValue::Number(decimal_mul(left, right))),
        BinaryOp::Div => {
            if decimal_zero(right) {
                Err(EvalError::DivisionByZero)
            } else {
                Ok(ScalarValue::Number(decimal_div(left, right)))
            }
        },
        BinaryOp::Mod => {
            if decimal_zero(right) {
                Err(EvalError::DivisionByZero)
            } else {
                Ok(ScalarValue::Number(decimal_rem(left, right)))
            }
        },
        BinaryOp::BitwiseAnd | BinaryOp::BitwiseOr => {
            let left_whole = decimal_whole(left);
            let right_whole = decimal_whole(right);
            if left_whole && right_whole {
                if let BinaryOp::BitwiseAnd = operator {
                    Ok(ScalarValue::Number(decimal_bitand(left, right)))
                } else {
                    Ok(ScalarValue::Number(decimal_bitor(left, right)))
                }
            } else {
                Err(
                    EvalError::UndefinedFunction {
                        operator,
                        left: if left_whole {
                            OperandType::Number
                        } else {
                            OperandType::Float
                        },
                        right: if right_whole {
                            OperandType::Number
                        } else {
                            OperandType::Float
                        },
                    },
                )
            }
        },
        _ => Ok(
            ScalarValue::Bool(compare(operator, decimal_eq(left, right), decimal_lt(left, right))),
        ),
    }
}

/// The type under which a value is named in an error.
pub fn operand_type(value: &ScalarValue) -> (named: OperandType)
    ensures
        named == general_type_of(value@),
{
    match value {
        ScalarValue::Null => OperandType::Null,
        ScalarValue::Bool(_) => OperandType::Bool,
        ScalarValue::Number(_) => OperandType::Number,
        ScalarValue::String(_) => OperandType::String,
    }
}

/// Whether the operator is a comparison.
pub fn comparison(operator: BinaryOp) -> (is: bool)
    ensures
        is == is_comparison(operator),
{
    match operator {
        BinaryOp::Eq
        | BinaryOp::NotEq
        | BinaryOp::Lt
        | BinaryOp::LtEq
        | BinaryOp::Gt
        | BinaryOp::GtEq => true,
        _ => false,
    }
}

/// Applies an operator to two values.
pub fn apply(operator: BinaryOp, left: ScalarValue, right: ScalarValue) -> (value: Result<
    ScalarValue,
    EvalError,
>)
    ensures
        match value {
            Ok(value) => applied(operator, left@, right@) == Ok::<Scalar, EvalError>(value@),
            Err(error) => applied(operator, left@, right@) == Err::<Scalar, EvalError>(error),
        },
{
    let undefined = EvalError::UndefinedFunction {
        operator,
        left: operand_type(&left),
        right: operand_type(&right),
    };
    match (left, right) {
        (ScalarValue::Number(left), ScalarValue::Number(right)) => apply_to_numbers(
            operator,
            &left,
            &right,
        ),
        (ScalarValue::String(left), ScalarValue::String(right)) => {
            if let BinaryOp::Concat = operator {
                Ok(ScalarValue::String(left.concat(right.as_str())))
            } else if comparison(operator) {
                let equal = left == right;
                let less = text_lt(left.as_str(), right.as_str());
                Ok(ScalarValue::Bool(compare(operator, equal, less)))
            } else {
                Err(undefined)
            }
        },
        (ScalarValue::Bool(left), ScalarValue::Bool(right)) => {
            if comparison(operator) {
                Ok(ScalarValue::Bool(compare(operator, left == right, !left && right)))
            } else {
                Err(undefined)
            }
        },
        _ => Err(undefined),
    }
}

/// Applies an operator to one value.
pub fn apply_to_one(operator: UnaryOp, operand: ScalarValue) -> (value: Result<
    ScalarValue,
    EvalError,
>)
    ensures
        match value {
            Ok(value) => applied_to_one(operator, operand@) == Ok::<Scalar, EvalError>(value@),
            Err(error) => applied_to_one(operator, operand@) == Err::<Scalar, EvalError>(error),
        },
{
    let undefined = EvalError::UndefinedUnaryFunction {
        unary: operator,
        operand: operand_type(&operand),
    };
    match (operator, operand) {
        (UnaryOp::Minus, ScalarValue::Number(number)) => Ok(
            ScalarValue::Number(decimal_neg(&number)),
        ),
        (UnaryOp::Plus, ScalarValue::Number(number)) => Ok(ScalarValue::Number(number)),
        (UnaryOp::Not, ScalarValue::Bool(b)) => Ok(ScalarValue::Bool(!b)),
        _ => Err(undefined),
    }
}

/// A copy of a value.
pub fn copy_value(value: &ScalarValue) -> (copy: ScalarValue)
    ensures
        copy@ == value@,
{
    match value {
        ScalarValue::Null => ScalarValue::Null,
        ScalarValue::Bool(b) => ScalarValue::Bool(*b),
        ScalarValue::Number(n) => ScalarValue::Number(n.clone()),
        ScalarValue::String(s) => ScalarValue::String(s.clone()),
    }
}

/// The views of the datums of a row.
pub open spec fn row_view(row: Seq<Datum>) -> Seq<DatumView> {
    row.map_values(|datum: Datum| datum@)
}

/// Reduces expressions against rows whose columns are found by name.
#[derive(Debug)]
pub struct DynamicExpressionEvaluation {
    columns: NameMap<usize>,
}

impl DynamicExpressionEvaluation {
    /// The position in the row of each column, by name.
    pub closed spec fn columns(&self) -> Map<Seq<char>, usize> {
        self.columns@
    }

    pub fn new(columns: NameMap<usize>) -> (evaluation: DynamicExpressionEvaluation)
        ensures
            evaluation.columns() == columns@,
    {
        DynamicExpressionEvaluation { columns }
    }

    /// The value of the expression for the row.
    pub fn value(&self, row: &[Datum], op: &ScalarOp) -> (value: Result<ScalarValue, EvalError>)
        ensures
            match value {
                Ok(value) => reduced(self.columns(), row_view(row@), *op) == Ok::<
                    Scalar,
                    EvalError,
                >(value@),
                Err(error) => reduced(self.columns(), row_view(row@), *op) == Err::<
                    Scalar,
                    EvalError,
                >(error),
            },
        decreases op,
    {
        match op {
            ScalarOp::Column(name) => {
                match self.columns.get(name.as_str()) {
                    Some(position) => {
                        if *position < row.len() {
                            Ok(value_of_datum(&row[*position]))
                        } else {
                            Err(EvalError::ColumnDoesNotExist(name.clone()))
                        }
                    },
                    None => Err(EvalError::ColumnDoesNotExist(name.clone())),
                }
            },
            ScalarOp::Value(value) => Ok(copy_value(value)),
            ScalarOp::Binary(operator, left, right) => {
                let left = match self.value(row, &**left) {
                    Ok(left) => left,
                    Err(error) => {
                        return Err(error);
                    },
                };
                let right = match self.value(row, &**right) {
                    Ok(right) => right,
                    Err(error) => {
                        return Err(error);
                    },
                };
                apply(*operator, left, right)
            },
            ScalarOp::Unary(operator, operand) => {
                match self.value(row, &**operand) {
                    Ok(operand) => apply_to_one(*operator, operand),
                    Err(error) => Err(error),
                }
            },
        }
    }

    /// Reduces the expression for the row to a value.
    pub fn eval(&self, row: &[Datum], op: &ScalarOp) -> (reduction: Result<ScalarOp, EvalError>)
        ensures
            match reduction {
                Ok(ScalarOp::Value(value)) => reduced(self.columns(), row_view(row@), *op) == Ok::<
                    Scalar,
                    EvalError,
                >(value@),
                Ok(_) => false,
                Err(error) => reduced(self.columns(), row_view(row@), *op) == Err::<
                    Scalar,
                    EvalError,
                >(error),
            },
    {
        match self.value(row, op) {
            Ok(value) => Ok(ScalarOp::Value(value)),
            Err(error) => Err(error),
        }
    }
}

/// The sign of an operator.
pub open spec fn operator_text(operator: BinaryOp) -> Seq<char> {
    match operator {
        BinaryOp::Add => "+"@,
        BinaryOp::Sub => "-"@,
        BinaryOp::Mul => "*"@,
        BinaryOp::Div => "/"@,
        BinaryOp::Mod => "%"@,
        BinaryOp::Concat => "||"@,
        BinaryOp::BitwiseAnd => "&"@,
        BinaryOp::BitwiseOr => "|"@,
        BinaryOp::Eq => "="@,
        BinaryOp::NotEq => "<>"@,
        BinaryOp::Lt => "<"@,
        BinaryOp::LtEq => "<="@,
        BinaryOp::Gt => ">"@,
        BinaryOp::GtEq => ">="@,
    }
}

/// The sign of an operator with one operand.
pub open spec fn unary_operator_text(operator: UnaryOp) -> Seq<char> {
    match operator {
        UnaryOp::Minus => "-"@,
        UnaryOp::Plus => "+"@,
        UnaryOp::Not => "NOT"@,
    }
}

/// The name of a type of operands.
pub open spec fn operand_type_text(named: OperandType) -> Seq<char> {
    match named {
        OperandType::Null => "NULL"@,
        OperandType::Bool => "BOOL"@,
        OperandType::Number => "NUMBER"@,
        OperandType::Float => "FLOAT"@,
        OperandType::String => "STRING"@,
    }
}

impl BinaryOp {
    /// The sign of the operator.
    pub fn sign(&self) -> (text: &'static str)
        ensures
            text@ == operator_text(*self),
    {
        match self {
            BinaryOp::Add => "+",
            BinaryOp::Sub => "-",
            BinaryOp::Mul => "*",
            BinaryOp::Div => "/",
            BinaryOp::Mod => "%",
            BinaryOp::Concat => "||",
            BinaryOp::BitwiseAnd => "&",
            BinaryOp::BitwiseOr => "|",
            BinaryOp::Eq => "=",
            BinaryOp::NotEq => "<>",
            BinaryOp::Lt => "<",
            BinaryOp::LtEq => "<=",
            BinaryOp::Gt => ">",
            BinaryOp::GtEq => ">=",
        }
    }
}

impl UnaryOp {
    /// The sign of the operator.
    pub fn sign(&self) -> (text: &'static str)
        ensures
            text@ == unary_operator_text(*self),
    {
        match self {
            UnaryOp::Minus => "-",
            UnaryOp::Plus => "+",
            UnaryOp::Not => "NOT",
        }
    }
}

impl OperandType {
    /// The name of the type.
    pub fn name(&self) -> (text: &'static str)
        ensures
            text@ == operand_type_text(*self),
    {
        match self {
            OperandType::Null => "NULL",
            OperandType::Bool => "BOOL",
            OperandType::Number => "NUMBER",
            OperandType::Float => "FLOAT",
            OperandType::String => "STRING",
        }
    }
}

impl EvalError {
    /// Whether `reported` is the error that reports this one to the
    /// client: an undefined function with the sign of the operator and the
    /// names of the types of its operands, the left of which is empty
    /// where the operator has one operand; a column that does not exist
    /// with its name; and an invalid value for a divisor that is zero and
    /// for a number out of range.
    pub open spec fn reported_as(self, reported: QueryError) -> bool {
        match self {
            EvalError::UndefinedFunction { operator, left, right } => {
                &&& reported matches QueryError::UndefinedFunction {
                    operator: sign,
                    left_type,
                    right_type,
                }
                &&& sign@ == operator_text(operator)
                &&& left_type@ == operand_type_text(left)
                &&& right_type@ == operand_type_text(right)
            },
            EvalError::UndefinedUnaryFunction { unary, operand } => {
                &&& reported matches QueryError::UndefinedFunction {
                    operator: sign,
                    left_type,
                    right_type,
                }
                &&& sign@ == unary_operator_text(unary)
                &&& left_type@ == Seq::<char>::empty()
                &&& right_type@ == operand_type_text(operand)
            },
            EvalError::ColumnDoesNotExist(name) => reported == QueryError::ColumnDoesNotExist(name),
            EvalError::DivisionByZero => reported matches QueryError::InvalidParameterValue(
                message,
            ) && message@ == "division by zero"@,
            EvalError::NumberOutOfRange => reported matches QueryError::InvalidParameterValue(
                message,
            ) && message@ == "numeric value out of range"@,
        }
    }

    /// The error that reports this one to the client.
    pub fn to_query_error(&self) -> (reported: QueryError)
        ensures
            self.reported_as(reported),
    {
        match self {
            EvalError::UndefinedFunction { operator, left, right } => QueryError::undefined_function(
                operator.sign().to_owned(),
                left.name().to_owned(),
                right.name().to_owned(),
            ),
            EvalError::UndefinedUnaryFunction { unary, operand } => QueryError::undefined_function(
                unary.sign().to_owned(),
                String::new(),
                operand.name().to_owned(),
            ),
            EvalError::ColumnDoesNotExist(name) => QueryError::column_does_not_exist(name.clone()),
            EvalError::DivisionByZero => QueryError::invalid_parameter_value(
                "division by zero".to_owned(),
            ),
            EvalError::NumberOutOfRange => QueryError::invalid_parameter_value(
                "numeric value out of range".to_owned(),
            ),
        }
    }
}

} // verus!
