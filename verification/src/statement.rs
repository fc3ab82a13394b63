//! What the statements of the parser say, read off their trees.
//!
//! The trees are those of the crate `sqlparser`. Nothing is decided here:
//! each function reads one variant and moves what it holds into plain
//! values.

use crate::sql_types::ColumnType;
use sqlparser::ast::{
    DataType, Expr, ObjectType, SelectItem, SetExpr, Statement, TableFactor, TableWithJoins,
    UnaryOperator, Value,
};
use vstd::prelude::*;

verus! {

#[verifier::external_type_specification]
#[verifier::external_body]
pub struct ExStatement(Statement);

#[verifier::external_type_specification]
#[verifier::external_body]
pub struct ExDataType(DataType);

#[verifier::external_type_specification]
#[verifier::external_body]
pub struct ExExpr(Expr);

#[verifier::external_type_specification]
#[verifier::external_body]
pub struct ExSelectItem(SelectItem);

#[verifier::external_type_specification]
#[verifier::external_body]
pub struct ExTableWithJoins(TableWithJoins);

/// What `SELECT` says: the items that it selects, the tables that it
/// selects from, and, for each further clause that can be written,
/// whether it is written: `DISTINCT`, `TOP`, `WHERE`, `GROUP BY`, `HAVING`,
/// `WITH`, `ORDER BY`, `LIMIT`, `OFFSET` and `FETCH`.
#[derive(Debug, Clone, PartialEq, Eq)]
pub struct SelectParts {
    pub projection: Vec<SelectItem>,
    pub from: Vec<TableWithJoins>,
    pub clauses: Vec<bool>,
}

/// What is selected from: the parts of the name of a table, where it is a
/// table, and whether an alias, arguments, hints and joins are written.
#[derive(Debug, Clone, PartialEq, Eq)]
pub struct RelationParts {
    pub name: Option<Vec<String>>,
    pub extras: Vec<bool>,
}

/// An item that is selected: all columns, the column of a name, or another
/// expression.
#[derive(Debug, Clone, PartialEq, Eq)]
pub enum Projection {
    Wildcard,
    Column(String),
    Other,
}

/// A statement that concerns the session rather than the data.
#[derive(Debug, Copy, Clone, PartialEq, Eq, Structural)]
pub enum SessionStatement {
    /// A variable of the session is set.
    SetVariable,
    /// A transaction is started, set up, committed or rolled back.
    Other,
}

/// What is dropped.
#[derive(Debug, Copy, Clone, PartialEq, Eq, Structural)]
pub enum DropKind {
    Table,
    Schema,
    Other,
}

/// What `DROP` says: what is dropped, the parts of each name, and whether
/// `CASCADE` and `IF EXISTS` were written.
#[derive(Debug, Clone, PartialEq, Eq)]
pub struct DropParts {
    pub kind: DropKind,
    pub names: Vec<Vec<String>>,
    pub cascade: bool,
    pub if_exists: bool,
}

/// What `DELETE` says: the parts of the name of the table, and the
/// expression of its `WHERE`, where one was written.
#[derive(Debug, Clone, PartialEq, Eq)]
pub struct DeleteParts {
    pub name: Vec<String>,
    pub selection: Option<Expr>,
}

/// The topmost node of an expression: a column by its name, a value, an
/// operator by its sign with the one or the two expressions that it is
/// applied to, an expression in brackets, or anything else.
#[derive(Debug, PartialEq, Eq)]
pub enum ExprNode {
    Column(String),
    Value,
    Binary { sign: String, left: Expr, right: Expr },
    Unary { sign: String, operand: Expr },
    Nested(Expr),
    Other,
}

/// What `CREATE TABLE` says: the parts of the name, the columns with their
/// declared types, and whether `IF NOT EXISTS` was written.
#[derive(Debug, Clone, PartialEq, Eq)]
pub struct CreateTableParts {
    pub name: Vec<String>,
    pub columns: Vec<(String, DataType)>,
    pub if_not_exists: bool,
}

/// What `UPDATE` says: the parts of the name of the table, the name of the
/// column and the expression of each assignment, and whether a `WHERE` was
/// written.
#[derive(Debug, Clone, PartialEq, Eq)]
pub struct UpdateParts {
    pub name: Vec<String>,
    pub assignments: Vec<(String, Expr)>,
    pub filtered: bool,
}

/// What `INSERT ... VALUES` says: the parts of the name of the table, the
/// columns that are listed, and the expressions of each row.
#[derive(Debug, Clone, PartialEq, Eq)]
pub struct InsertParts {
    pub name: Vec<String>,
    pub columns: Vec<String>,
    pub rows: Vec<Vec<Expr>>,
}

/// A value as it is written in a statement: null, a boolean, a number by
/// its text with or without a minus sign before it, a string, or another
/// expression.
#[derive(Debug, Clone, PartialEq, Eq)]
pub enum Literal {
    Null,
    Bool(bool),
    Number { negative: bool, text: String },
    Text(String),
    Other,
}

/// What a `SELECT` says.
pub uninterp spec fn select_of(statement: Statement) -> Option<SelectParts>;

/// What is selected from.
pub uninterp spec fn relation_of(table: TableWithJoins) -> RelationParts;

/// What an item selects.
pub uninterp spec fn projection_of(item: SelectItem) -> Projection;

/// What a statement of the session is.
pub uninterp spec fn session_statement_of(statement: Statement) -> Option<SessionStatement>;

/// The parts of the name of the schema of a `CREATE SCHEMA`.
pub uninterp spec fn create_schema_of(statement: Statement) -> Option<Vec<String>>;

/// What a `DROP` says.
pub uninterp spec fn drop_of(statement: Statement) -> Option<DropParts>;

/// What a `CREATE TABLE` says.
pub uninterp spec fn create_table_of(statement: Statement) -> Option<CreateTableParts>;

/// What a `DELETE` says.
pub uninterp spec fn delete_of(statement: Statement) -> Option<DeleteParts>;

/// What an `UPDATE` says.
pub uninterp spec fn update_of(statement: Statement) -> Option<UpdateParts>;

/// What an `INSERT` of rows of values says.
pub uninterp spec fn insert_of(statement: Statement) -> Option<InsertParts>;

/// The value that an expression writes.
pub uninterp spec fn literal_of(expr: Expr) -> Literal;

/// The topmost node of an expression.
pub uninterp spec fn node_of(expr: Expr) -> ExprNode;

/// What a data type of the parser says about a column.
pub uninterp spec fn declared_type_of(data_type: DataType) -> ColumnType;

/// The value without the sign of a number.
pub open spec fn without_sign(literal: Literal) -> Literal {
    match literal {
        Literal::Number { negative, text } => Literal::Number { negative: false, text },
        _ => literal,
    }
}

/// What a minus before an expression of the value writes: the number
/// with a minus where the value is a number without one, and no value
/// else.
pub open spec fn negated(literal: Literal) -> Literal {
    match literal {
        Literal::Number { negative, text } => if negative {
            Literal::Other
        } else {
            Literal::Number { negative: true, text }
        },
        _ => Literal::Other,
    }
}

/// Whether the node is an operator of the sign of `like`, applied to the
/// two expressions.
pub open spec fn binary_node(node: ExprNode, like: ExprNode, left: Expr, right: Expr) -> bool {
    like matches ExprNode::Binary { sign, .. } && node == (ExprNode::Binary { sign, left, right })
}

/// Whether the node is an operator of the sign of `like`, applied to the
/// expression.
pub open spec fn unary_node(node: ExprNode, like: ExprNode, operand: Expr) -> bool {
    like matches ExprNode::Unary { sign, .. } && node == (ExprNode::Unary { sign, operand })
}

/// What an operator with one operand before an expression of the value
/// writes: under the sign `-` what a minus writes, and no value else.
pub open spec fn under_sign(like: ExprNode, literal: Literal) -> Literal {
    if like matches ExprNode::Unary { sign, .. } && sign@ == "-"@ {
        negated(literal)
    } else {
        Literal::Other
    }
}

/// Whether the node is a minus, applied to the expression.
pub open spec fn minus_node(node: ExprNode, operand: Expr) -> bool {
    node matches ExprNode::Unary { sign, operand: held } && sign@ == "-"@ && held == operand
}

/// What an `INSERT` says after its rows were exchanged.
pub open spec fn insert_changed(
    before: Option<InsertParts>,
    rows: Vec<Vec<Expr>>,
    after: Option<InsertParts>,
) -> bool {
    before matches Some(parts) && after == Some(
        InsertParts { name: parts.name, columns: parts.columns, rows },
    )
}

/// What an `UPDATE` says after the expressions of its assignments were
/// exchanged, each for the one at its place.
pub open spec fn update_changed(
    before: Option<UpdateParts>,
    values: Seq<Expr>,
    after: Option<UpdateParts>,
) -> bool {
    &&& before matches Some(parts)
    &&& after matches Some(changed)
    &&& changed.name == parts.name
    &&& changed.filtered == parts.filtered
    &&& changed.assignments@.len() == values.len()
    &&& forall|i: int|
        0 <= i < values.len() ==> #[trigger] changed.assignments@[i] == (
            parts.assignments@[i].0,
            values[i],
        )
}

/// What a `DELETE` says after its selection was exchanged.
pub open spec fn delete_changed(
    before: Option<DeleteParts>,
    selection: Expr,
    after: Option<DeleteParts>,
) -> bool {
    before matches Some(parts) && after == Some(
        DeleteParts { name: parts.name, selection: Some(selection) },
    )
}

/// `Clone::clone` of a `sqlparser::ast::Expr`: the copy is the expression.
pub assume_specification[ <Expr as Clone>::clone ](expr: &Expr) -> (copy: Expr)
    ensures
        copy == *expr,
;

/// `Clone::clone` of a `sqlparser::ast::Statement`: the copy is the
/// statement.
pub assume_specification[ <Statement as Clone>::clone ](statement: &Statement) -> (copy: Statement)
    ensures
        copy == *statement,
;

/// Reads whether the variant of a `sqlparser::ast::Statement` is
/// `SetVariable`, or one of `StartTransaction`, `SetTransaction`, `Commit`
/// and `Rollback`. Nothing for another variant.
#[verifier::external_body]
pub(crate) fn read_session_statement(statement: &Statement) -> (kind: Option<SessionStatement>)
    ensures
        kind == session_statement_of(*statement),
{
    match statement {
        Statement::SetVariable { .. } => Some(SessionStatement::SetVariable),
        Statement::StartTransaction { .. } => Some(SessionStatement::Other),
        Statement::SetTransaction { .. } => Some(SessionStatement::Other),
        Statement::Commit { .. } => Some(SessionStatement::Other),
        Statement::Rollback { .. } => Some(SessionStatement::Other),
        _ => None,
    }
}

/// Reads the variant `CreateSchema` of `sqlparser::ast::Statement`: the
/// values of the identifiers of its schema name. Nothing for another
/// variant.
#[verifier::external_body]
pub(crate) fn read_create_schema(statement: &Statement) -> (name: Option<Vec<String>>)
    ensures
        name == create_schema_of(*statement),
{
    match statement {
        Statement::CreateSchema { schema_name } => Some(
            schema_name.0.iter().map(|ident| ident.value.clone()).collect(),
        ),
        _ => None,
    }
}

/// Reads the variant `Drop` of `sqlparser::ast::Statement`: whether its
/// object type is a table, a schema or another, the values of the
/// identifiers of each name, its `cascade` and its `if_exists`. Nothing
/// for another variant.
#[verifier::external_body]
pub(crate) fn read_drop(statement: &Statement) -> (parts: Option<DropParts>)
    ensures
        parts == drop_of(*statement),
{
    match statement {
        Statement::Drop { object_type, if_exists, names, cascade } => Some(
            DropParts {
                kind: match object_type {
                    ObjectType::Table => DropKind::Table,
                    ObjectType::Schema => DropKind::Schema,
                    _ => DropKind::Other,
                },
                names: names.iter().map(|n| n.0.iter().map(|i| i.value.clone()).collect()).collect(),
                cascade: *cascade,
                if_exists: *if_exists,
            },
        ),
        _ => None,
    }
}

/// Reads the variant `CreateTable` of `sqlparser::ast::Statement`: the
/// values of the identifiers of its name, the name and the data type of
/// each column, and its `if_not_exists`. Nothing for another variant.
#[verifier::external_body]
pub(crate) fn read_create_table(statement: &Statement) -> (parts: Option<CreateTableParts>)
    ensures
        parts == create_table_of(*statement),
{
    match statement {
        Statement::CreateTable { name, columns, if_not_exists, .. } => Some(
            CreateTableParts {
                name: name.0.iter().map(|ident| ident.value.clone()).collect(),
                columns: columns.iter().map(|c| (c.name.value.clone(), c.data_type.clone())).collect(),
                if_not_exists: *if_not_exists,
            },
        ),
        _ => None,
    }
}

/// Reads the variant `Delete` of `sqlparser::ast::Statement`: the values of
/// the identifiers of its table name, and its selection. Nothing for
/// another variant.
#[verifier::external_body]
pub(crate) fn read_delete(statement: &Statement) -> (parts: Option<DeleteParts>)
    ensures
        parts == delete_of(*statement),
{
    match statement {
        Statement::Delete { table_name, selection } => Some(
            DeleteParts {
                name: table_name.0.iter().map(|ident| ident.value.clone()).collect(),
                selection: selection.clone(),
            },
        ),
        _ => None,
    }
}

/// Reads the variant `Update` of `sqlparser::ast::Statement`: the values of
/// the identifiers of its table name, the value of the identifier and the
/// expression of each assignment, and whether it has a selection. Nothing
/// for another variant.
#[verifier::external_body]
pub(crate) fn read_update(statement: &Statement) -> (parts: Option<UpdateParts>)
    ensures
        parts == update_of(*statement),
{
    match statement {
        Statement::Update { table_name, assignments, selection } => Some(
            UpdateParts {
                name: table_name.0.iter().map(|ident| ident.value.clone()).collect(),
                assignments: assignments.iter().map(|a| (a.id.value.clone(), a.value.clone())).collect(),
                filtered: selection.is_some(),
            },
        ),
        _ => None,
    }
}

/// Reads the variant `Insert` of `sqlparser::ast::Statement` where the body
/// of its source is the variant `Values`: the values of the identifiers of
/// its table name and of its columns, and the expressions of each row.
/// Nothing for anything else.
#[verifier::external_body]
pub(crate) fn read_insert(statement: &Statement) -> (parts: Option<InsertParts>)
    ensures
        parts == insert_of(*statement),
{
    match statement {
        Statement::Insert { table_name, columns, source } => match &source.body {
            SetExpr::Values(values) => Some(
                InsertParts {
                    name: table_name.0.iter().map(|ident| ident.value.clone()).collect(),
                    columns: columns.iter().map(|ident| ident.value.clone()).collect(),
                    rows: values.0.clone(),
                },
            ),
            _ => None,
        },
        _ => None,
    }
}

/// Reads the variant of a `sqlparser::ast::Expr`: the variant `Value` by
/// the variant of the value it holds, the variant `UnaryOp` with a minus
/// before a number as that number with a minus, and any other as `Other`.
#[verifier::external_body]
pub(crate) fn read_literal(expr: &Expr) -> (literal: Literal)
    ensures
        literal == literal_of(*expr),
{
    match expr {
        Expr::Value(Value::Null) => Literal::Null,
        Expr::Value(Value::Boolean(b)) => Literal::Bool(*b),
        Expr::Value(Value::Number(text)) => Literal::Number { negative: false, text: text.clone() },
        Expr::Value(Value::SingleQuotedString(text)) => Literal::Text(text.clone()),
        Expr::UnaryOp { op: UnaryOperator::Minus, expr } => match &**expr {
            Expr::Value(Value::Number(text)) => Literal::Number { negative: true, text: text.clone() },
            _ => Literal::Other,
        },
        _ => Literal::Other,
    }
}

/// Reads the variant of a `sqlparser::ast::Expr`: `Identifier` with the
/// value of the identifier, `Value`, `BinaryOp` and `UnaryOp` with what
/// the operator displays as and with the expressions that they hold,
/// `Nested` with the expression that it holds, and any other as `Other`.
#[verifier::external_body]
pub(crate) fn read_node(expr: &Expr) -> (node: ExprNode)
    ensures
        node == node_of(*expr),
{
    match expr {
        Expr::Identifier(ident) => ExprNode::Column(ident.value.clone()),
        Expr::Value(_) => ExprNode::Value,
        Expr::BinaryOp { left, op, right } => ExprNode::Binary {
            sign: op.to_string(),
            left: (**left).clone(),
            right: (**right).clone(),
        },
        Expr::UnaryOp { op, expr } => ExprNode::Unary { sign: op.to_string(), operand: (**expr).clone() },
        Expr::Nested(inner) => ExprNode::Nested((**inner).clone()),
        _ => ExprNode::Other,
    }
}

/// Builds the `sqlparser::ast::Expr` that writes a value: the variant
/// `Value` with `Null`, `Boolean`, `Number` of the text or
/// `SingleQuotedString`; the sign of a number is left out. For what is no
/// value it builds `Wildcard`, which reads as no value.
#[verifier::external_body]
pub(crate) fn write_value(literal: &Literal) -> (expr: Expr)
    ensures
        literal_of(expr) == without_sign(*literal),
        (literal is Other ==> node_of(expr) == ExprNode::Other),
        (!(literal is Other) ==> node_of(expr) == ExprNode::Value),
{
    match literal {
        Literal::Null => Expr::Value(Value::Null),
        Literal::Bool(b) => Expr::Value(Value::Boolean(*b)),
        Literal::Number { text, .. } => Expr::Value(Value::Number(text.clone())),
        Literal::Text(text) => Expr::Value(Value::SingleQuotedString(text.clone())),
        Literal::Other => Expr::Wildcard,
    }
}

/// Builds the variant `UnaryOp` of `sqlparser::ast::Expr` with the
/// operator `Minus`, which displays as `-`, and the expression.
#[verifier::external_body]
pub(crate) fn write_negated(operand: Expr) -> (expr: Expr)
    ensures
        minus_node(node_of(expr), operand),
        literal_of(expr) == negated(literal_of(operand)),
{
    Expr::UnaryOp { op: UnaryOperator::Minus, expr: Box::new(operand) }
}

/// Builds the variant `BinaryOp` of `sqlparser::ast::Expr` with the
/// operator of the given one and the two expressions. It reads as no
/// value.
#[verifier::external_body]
pub(crate) fn binary_with(like: &Expr, left: Expr, right: Expr) -> (expr: Expr)
    requires
        node_of(*like) is Binary,
    ensures
        binary_node(node_of(expr), node_of(*like), left, right),
        literal_of(expr) == Literal::Other,
{
    match like {
        Expr::BinaryOp { op, .. } => Expr::BinaryOp {
            left: Box::new(left),
            op: op.clone(),
            right: Box::new(right),
        },
        _ => left,
    }
}

/// Builds the variant `UnaryOp` of `sqlparser::ast::Expr` with the
/// operator of the given one and the expression. Under the operator that
/// displays as `-` it reads as the value of the expression with a minus,
/// and as no value else.
#[verifier::external_body]
pub(crate) fn unary_with(like: &Expr, operand: Expr) -> (expr: Expr)
    requires
        node_of(*like) is Unary,
    ensures
        unary_node(node_of(expr), node_of(*like), operand),
        literal_of(expr) == under_sign(node_of(*like), literal_of(operand)),
{
    match like {
        Expr::UnaryOp { op, .. } => Expr::UnaryOp { op: op.clone(), expr: Box::new(operand) },
        _ => operand,
    }
}

/// Builds the variant `Nested` of `sqlparser::ast::Expr` with the
/// expression. It reads as no value.
#[verifier::external_body]
pub(crate) fn nested_with(inner: Expr) -> (expr: Expr)
    ensures
        node_of(expr) == ExprNode::Nested(inner),
        literal_of(expr) == Literal::Other,
{
    Expr::Nested(Box::new(inner))
}

/// Copies a `sqlparser::ast::Statement` of the variant `Insert` whose
/// source has a body of the variant `Values`, with the rows in the place
/// of the rows of the values.
#[verifier::external_body]
pub(crate) fn insert_with_rows(statement: &Statement, rows: Vec<Vec<Expr>>) -> (changed: Statement)
    requires
        insert_of(*statement) is Some,
    ensures
        insert_changed(insert_of(*statement), rows, insert_of(changed)),
{
    let mut changed = statement.clone();
    if let Statement::Insert { source, .. } = &mut changed {
        if let SetExpr::Values(values) = &mut source.body {
            values.0 = rows;
        }
    }
    changed
}

/// Copies a `sqlparser::ast::Statement` of the variant `Update`, with each
/// of the expressions in the place of the value of the assignment at its
/// place.
#[verifier::external_body]
pub(crate) fn update_with_values(statement: &Statement, values: Vec<Expr>) -> (changed: Statement)
    requires
        update_of(*statement) matches Some(parts) && parts.assignments@.len() == values@.len(),
    ensures
        update_changed(update_of(*statement), values@, update_of(changed)),
{
    let mut changed = statement.clone();
    if let Statement::Update { assignments, .. } = &mut changed {
        for (assignment, value) in assignments.iter_mut().zip(values) {
            assignment.value = value;
        }
    }
    changed
}

/// Copies a `sqlparser::ast::Statement` of the variant `Delete`, with the
/// expression as its selection.
#[verifier::external_body]
pub(crate) fn delete_with_selection(statement: &Statement, selection: Expr) -> (changed: Statement)
    requires
        delete_of(*statement) is Some,
    ensures
        delete_changed(delete_of(*statement), selection, delete_of(changed)),
{
    let mut changed = statement.clone();
    if let Statement::Delete { selection: held, .. } = &mut changed {
        *held = Some(selection);
    }
    changed
}

/// Reads the variant `Query` of `sqlparser::ast::Statement` where the body
/// of the query is the variant `Select`: its projection, its `from`, and
/// of each further field of the select and of the query whether it holds
/// anything. Nothing for anything else.
#[verifier::external_body]
pub(crate) fn read_select(statement: &Statement) -> (parts: Option<SelectParts>)
    ensures
        parts == select_of(*statement),
{
    let query = match statement {
        Statement::Query(query) => query,
        _ => return None,
    };
    let (select, q) = match &query.body {
        SetExpr::Select(select) => (select, query),
        _ => return None,
    };
    Some(
        SelectParts {
            projection: select.projection.clone(),
            from: select.from.clone(),
            clauses: vec![select.distinct, select.top.is_some(), select.selection.is_some(), !select.group_by.is_empty(), select.having.is_some(), !q.ctes.is_empty(), !q.order_by.is_empty(), q.limit.is_some(), q.offset.is_some(), q.fetch.is_some()],
        },
    )
}

/// Reads a `sqlparser::ast::TableWithJoins`: the values of the identifiers
/// of the name of its relation where that is the variant `Table`, and
/// whether that has an alias, arguments and hints, and whether there are
/// joins.
#[verifier::external_body]
pub(crate) fn read_relation(table: &TableWithJoins) -> (parts: RelationParts)
    ensures
        parts == relation_of(*table),
{
    match &table.relation {
        TableFactor::Table { name, alias, args, with_hints } => RelationParts {
            name: Some(name.0.iter().map(|ident| ident.value.clone()).collect()),
            extras: vec![alias.is_some(), !args.is_empty(), !with_hints.is_empty(), !table.joins.is_empty()],
        },
        _ => RelationParts { name: None, extras: vec![!table.joins.is_empty()] },
    }
}

/// Reads the variant of a `sqlparser::ast::SelectItem`: `Wildcard`, an
/// expression without alias that is an identifier as the column of its
/// value, and any other as `Other`.
#[verifier::external_body]
pub(crate) fn read_projection(item: &SelectItem) -> (projection: Projection)
    ensures
        projection == projection_of(*item),
{
    match item {
        SelectItem::Wildcard => Projection::Wildcard,
        SelectItem::UnnamedExpr(Expr::Identifier(ident)) => Projection::Column(ident.value.clone()),
        _ => Projection::Other,
    }
}

/// Reads the variant of a `sqlparser::ast::DataType` and what it carries.
/// The six variants that name a column type map to the variant of the same
/// name, a custom type to the values of the identifiers of its name, and
/// every other variant to `Other`.
#[verifier::external_body]
pub(crate) fn read_declared_type(data_type: &DataType) -> (column_type: ColumnType)
    ensures
        column_type == declared_type_of(*data_type),
{
    match data_type {
        DataType::SmallInt => ColumnType::SmallInt,
        DataType::Int => ColumnType::Int,
        DataType::BigInt => ColumnType::BigInt,
        DataType::Boolean => ColumnType::Boolean,
        DataType::Char(len) => ColumnType::Char(*len),
        DataType::Varchar(len) => ColumnType::Varchar(*len),
        DataType::Custom(name) => ColumnType::Custom(name.0.iter().map(|i| i.value.clone()).collect()),
        _ => ColumnType::Other,
    }
}

} // verus!
