//! Name resolution and type checking of parsed statements against the
//! catalog of definitions.

use crate::expr_eval::ScalarOp;
use crate::expression::{
    expression_of, find_missing_column, missing_column, read_expression, MAX_DEPTH,
};
use crate::metadata::{
    ColumnDefinition, DataDefinition, FullTableId, NotFoundError, DEFAULT_CATALOG,
};
use crate::sql_types::{ColumnType, SqlType};
use crate::statement::{
    create_schema_of, create_table_of, declared_type_of, delete_of, drop_of, insert_of, literal_of,
    read_create_schema, read_create_table, read_declared_type, read_delete, read_drop, read_insert,
    projection_of, read_literal, read_projection, read_relation, read_select,
    read_session_statement, read_update, relation_of, select_of, session_statement_of,
    update_of, CreateTableParts, DeleteParts, DropKind, DropParts, InsertParts, Literal,
    Projection, SelectParts, SessionStatement, UpdateParts,
};
use sqlparser::ast::{DataType, Expr, SelectItem, Statement};
use vstd::prelude::*;
use vstd::string::StringExecFns;

verus! {

/// The shape of an insert: its table and the types of the table's columns.
#[derive(Debug, PartialEq, Eq)]
pub struct InsertStatement {
    pub table_id: FullTableId,
    pub sql_types: Vec<SqlType>,
}

/// The shape of a statement.
#[derive(Debug, PartialEq, Eq)]
pub enum Description {
    Insert(InsertStatement),
}

/// Why a statement could not be described.
#[derive(Debug, Clone, PartialEq, Eq)]
pub enum DescriptionError {
    TableDoesNotExist(String),
    SchemaDoesNotExist(String),
}

/// Why a statement was refused.
#[derive(Debug, Clone, PartialEq, Eq)]
pub enum AnalysisError {
    SchemaDoesNotExist(String),
    TableDoesNotExist(String),
    TableNamingError(String),
    TypeIsNotSupported(String),
    DuplicateColumn(String),
    ColumnDoesNotExist(String),
    SyntaxError(String),
    FeatureNotSupported(String),
}

/// A table by its names, with the id of its schema.
#[derive(Debug, Clone, PartialEq, Eq)]
pub struct TableInfo {
    pub schema_id: u64,
    pub schema_name: String,
    pub table_name: String,
}

/// A column of a table that is to be created.
#[derive(Debug, Clone, PartialEq, Eq)]
pub struct ColumnInfo {
    pub name: String,
    pub sql_type: SqlType,
}

/// A table that is to be created.
#[derive(Debug, Clone, PartialEq, Eq)]
pub struct CreateTableQuery {
    pub table_info: TableInfo,
    pub column_defs: Vec<ColumnInfo>,
    pub if_not_exists: bool,
}

/// A schema that is to be created.
#[derive(Debug, Clone, PartialEq, Eq)]
pub struct CreateSchemaQuery {
    pub schema_name: String,
    pub if_not_exists: bool,
}

/// Schemas that are to be dropped, by their names.
#[derive(Debug, Clone, PartialEq, Eq)]
pub struct DropSchemasQuery {
    pub schema_names: Vec<String>,
    pub cascade: bool,
    pub if_exists: bool,
}

/// Rows that are to be inserted into a table, as they are written, with
/// the types of the columns of the table.
#[derive(Debug, PartialEq, Eq)]
pub struct InsertQuery {
    pub table_id: FullTableId,
    pub sql_types: Vec<SqlType>,
    pub rows: Vec<Vec<Literal>>,
}

/// Expressions whose values are to be put into columns of all rows of a
/// table: for each assignment the ordinal and the type of the column and
/// the expression.
#[derive(Debug, PartialEq, Eq)]
pub struct UpdateQuery {
    pub table_id: FullTableId,
    pub assignments: Vec<(u64, SqlType, ScalarOp)>,
}

/// Tables that are to be dropped, by their handles.
#[derive(Debug, PartialEq, Eq)]
pub struct DropTablesQuery {
    pub table_ids: Vec<FullTableId>,
    pub cascade: bool,
    pub if_exists: bool,
}

/// A change of the definitions.
#[derive(Debug, PartialEq, Eq)]
pub enum SchemaChange {
    CreateSchema(CreateSchemaQuery),
    DropSchemas(DropSchemasQuery),
    CreateTable(CreateTableQuery),
    DropTables(DropTablesQuery),
}

/// A change of the rows of a table.
#[derive(Debug, PartialEq, Eq)]
pub enum Write {
    /// The rows of the table of which the expression holds are to be
    /// deleted, and all rows where there is none.
    Delete { table_id: FullTableId, predicate: Option<ScalarOp> },
    /// Rows are to be inserted into the table.
    Insert(InsertQuery),
    /// Columns of all rows of the table are to be set.
    Update(UpdateQuery),
}

/// Columns that are to be read from a table, by their ordinals.
#[derive(Debug, PartialEq, Eq)]
pub struct SelectQuery {
    pub table_id: FullTableId,
    pub selected_columns: Vec<u64>,
}

/// What a statement asks for, with its names resolved and its types checked.
#[derive(Debug, PartialEq, Eq)]
pub enum QueryAnalysis {
    DataDefinition(SchemaChange),
    Write(Write),
    Read(SelectQuery),
    Session(SessionStatement),
}

/// Why the expression of a `WHERE` does not choose rows of the table.
pub enum SelectionProblem {
    /// It writes no expression that can be evaluated.
    NotSupported,
    /// The table has no column of the name.
    ColumnDoesNotExist(String),
}

/// The expression that a `WHERE` writes for a table, where one is
/// written, or why it writes none.
pub open spec fn selection_of(
    numbered: Seq<(u64, ColumnDefinition)>,
    selection: Option<Expr>,
) -> Result<Option<ScalarOp>, SelectionProblem> {
    match selection {
        None => Ok(None),
        Some(expr) => match expression_of(expr, MAX_DEPTH as nat) {
            None => Err(SelectionProblem::NotSupported),
            Some(op) => match missing_column(numbered, op) {
                Some(name) => Err(SelectionProblem::ColumnDoesNotExist(name)),
                None => Ok(Some(op)),
            },
        },
    }
}

/// Whether the error reports the problem.
pub open spec fn selection_reported(problem: SelectionProblem, error: AnalysisError) -> bool {
    match problem {
        SelectionProblem::NotSupported => error matches AnalysisError::FeatureNotSupported(
            feature,
        ) && feature@ == "WHERE"@,
        SelectionProblem::ColumnDoesNotExist(name) => error == AnalysisError::ColumnDoesNotExist(
            name,
        ),
    }
}

/// Reads the expression that a `WHERE` writes for a table.
pub fn read_selection(numbered: &Vec<(u64, ColumnDefinition)>, selection: &Option<Expr>) -> (read:
    Result<Option<ScalarOp>, SelectionProblem>)
    ensures
        read == selection_of(numbered@, *selection),
{
    match selection {
        None => Ok(None),
        Some(expr) => match read_expression(expr, MAX_DEPTH) {
            None => Err(SelectionProblem::NotSupported),
            Some(op) => match find_missing_column(numbered, &op) {
                Some(name) => Err(SelectionProblem::ColumnDoesNotExist(name)),
                None => Ok(Some(op)),
            },
        },
    }
}

/// Why the items of a select do not select columns of the table.
pub enum ProjectionProblem {
    /// The table has no column of the name.
    ColumnDoesNotExist(String),
    /// The item is no column and not all columns.
    NotSupported,
}

/// The parts joined by dots.
pub open spec fn dotted(parts: Seq<Seq<char>>) -> Seq<char>
    decreases parts.len(),
{
    if parts.len() == 0 {
        Seq::empty()
    } else if parts.len() == 1 {
        parts[0]
    } else {
        dotted(parts.drop_last()) + "."@ + parts.last()
    }
}

/// The texts of a list of strings.
pub open spec fn texts(parts: Seq<String>) -> Seq<Seq<char>> {
    parts.map_values(|part: String| part@)
}

/// The text that refuses a table name of one part.
pub open spec fn unqualified_name_text(name: Seq<char>) -> Seq<char> {
    "Unsupported table name '"@ + name + "'. All table names must be qualified"@
}

/// The text that refuses a table name of no part or of more than two.
pub open spec fn unprocessed_name_text(name: Seq<char>) -> Seq<char> {
    "Unable to process table name '"@ + name + "'"@
}

/// The text that refuses a schema name that has not one part.
pub open spec fn unprocessed_schema_text(name: Seq<char>) -> Seq<char> {
    "Unable to process schema name '"@ + name + "'"@
}

/// The values that the expressions of rows write.
pub open spec fn literals(rows: Seq<Vec<Expr>>) -> Seq<Seq<Literal>> {
    rows.map_values(|row: Vec<Expr>| row@.map_values(|expr: Expr| literal_of(expr)))
}

/// The rows of values as sequences.
pub open spec fn rows_view(rows: Seq<Vec<Literal>>) -> Seq<Seq<Literal>> {
    rows.map_values(|row: Vec<Literal>| row@)
}

/// The text that names a type that is no column type: the name of a custom
/// type, and `unknown` for any other.
pub open spec fn raw_type_text(column_type: ColumnType) -> Seq<char> {
    match column_type {
        ColumnType::Custom(parts) => dotted(texts(parts@)),
        _ => "unknown"@,
    }
}

/// Joins the parts by dots.
pub fn join_dotted(parts: &Vec<String>) -> (joined: String)
    ensures
        joined@ == dotted(texts(parts@)),
{
    let mut joined = String::new();
    let mut i: usize = 0;
    assert(texts(parts@).take(0) =~= Seq::empty());
    while i < parts.len()
        invariant
            i <= parts.len(),
            joined@ == dotted(texts(parts@).take(i as int)),
        decreases parts.len() - i,
    {
        let ghost before = texts(parts@).take(i as int);
        let ghost next = texts(parts@).take(i + 1);
        proof {
            assert(next.drop_last() =~= before);
            assert(next.last() == parts@[i as int]@);
        }
        if i > 0 {
            joined.append(".");
        }
        joined.append(parts[i].as_str());
        i = i + 1;
        assert(joined@ =~= dotted(next));
    }
    assert(texts(parts@).take(i as int) =~= texts(parts@));
    joined
}

impl DescriptionError {
    pub fn schema_does_not_exist(schema_name: &str) -> (error: DescriptionError)
        ensures
            error matches DescriptionError::SchemaDoesNotExist(name) && name@ == schema_name@,
    {
        DescriptionError::SchemaDoesNotExist(schema_name.to_owned())
    }

    pub fn table_does_not_exist(table_name: &str) -> (error: DescriptionError)
        ensures
            error matches DescriptionError::TableDoesNotExist(name) && name@ == table_name@,
    {
        DescriptionError::TableDoesNotExist(table_name.to_owned())
    }
}

impl AnalysisError {
    pub fn schema_does_not_exist(schema_name: &str) -> (error: AnalysisError)
        ensures
            error matches AnalysisError::SchemaDoesNotExist(name) && name@ == schema_name@,
    {
        AnalysisError::SchemaDoesNotExist(schema_name.to_owned())
    }

    pub fn table_does_not_exist(table_name: &str) -> (error: AnalysisError)
        ensures
            error matches AnalysisError::TableDoesNotExist(name) && name@ == table_name@,
    {
        AnalysisError::TableDoesNotExist(table_name.to_owned())
    }

    pub fn table_naming_error(message: &str) -> (error: AnalysisError)
        ensures
            error matches AnalysisError::TableNamingError(text) && text@ == message@,
    {
        AnalysisError::TableNamingError(message.to_owned())
    }

    pub fn type_is_not_supported(raw_type: &str) -> (error: AnalysisError)
        ensures
            error matches AnalysisError::TypeIsNotSupported(name) && name@ == raw_type@,
    {
        AnalysisError::TypeIsNotSupported(raw_type.to_owned())
    }
}

impl TableInfo {
    pub fn new(schema_id: u64, schema_name: &str, table_name: &str) -> (info: TableInfo)
        ensures
            info.schema_id == schema_id,
            info.schema_name@ == schema_name@,
            info.table_name@ == table_name@,
    {
        TableInfo {
            schema_id,
            schema_name: schema_name.to_owned(),
            table_name: table_name.to_owned(),
        }
    }
}

/// The types of the columns of a statement's table, read off its
/// declarations, as far as they are column types: the types of the
/// columns before the first that is none.
pub open spec fn supported_prefix(columns: Seq<(String, DataType)>) -> Seq<ColumnInfo>
    decreases columns.len(),
{
    if columns.len() == 0 {
        Seq::empty()
    } else {
        let front = supported_prefix(columns.drop_last());
        if front.len() == columns.len() - 1 {
            match SqlType::of_column_type(declared_type_of(columns.last().1)) {
                Ok(sql_type) => front.push(ColumnInfo { name: columns.last().0, sql_type }),
                Err(_) => front,
            }
        } else {
            front
        }
    }
}

/// The ordinal of the first column of the name.
pub open spec fn ordinal_of(numbered: Seq<(u64, ColumnDefinition)>, name: Seq<char>) -> Option<u64>
    decreases numbered.len(),
{
    if numbered.len() == 0 {
        None
    } else if numbered[0].1.name@ == name {
        Some(numbered[0].0)
    } else {
        ordinal_of(numbered.drop_first(), name)
    }
}

/// The ordinal and the type of the first column of the name.
pub open spec fn column_of(numbered: Seq<(u64, ColumnDefinition)>, name: Seq<char>) -> Option<
    (u64, SqlType),
>
    decreases numbered.len(),
{
    if numbered.len() == 0 {
        None
    } else if numbered[0].1.name@ == name {
        Some((numbered[0].0, numbered[0].1.sql_type))
    } else {
        column_of(numbered.drop_first(), name)
    }
}

/// What one assignment asks for: the ordinal and the type of the column
/// that it names and the expression that it writes; or that the table has
/// no column of the name, that the expression cannot be evaluated, or
/// that the expression names a column that the table does not have.
pub open spec fn resolved_assignment(
    numbered: Seq<(u64, ColumnDefinition)>,
    assignment: (String, Expr),
) -> Result<(u64, SqlType, ScalarOp), SelectionProblem> {
    match column_of(numbered, assignment.0@) {
        None => Err(SelectionProblem::ColumnDoesNotExist(assignment.0)),
        Some((ordinal, sql_type)) => match expression_of(assignment.1, MAX_DEPTH as nat) {
            None => Err(SelectionProblem::NotSupported),
            Some(op) => match missing_column(numbered, op) {
                Some(name) => Err(SelectionProblem::ColumnDoesNotExist(name)),
                None => Ok((ordinal, sql_type, op)),
            },
        },
    }
}

/// The assignments with their columns resolved and their expressions
/// read, or the problem of the first assignment that has one.
pub open spec fn resolved_assignments(
    numbered: Seq<(u64, ColumnDefinition)>,
    assignments: Seq<(String, Expr)>,
) -> Result<Seq<(u64, SqlType, ScalarOp)>, SelectionProblem>
    decreases assignments.len(),
{
    if assignments.len() == 0 {
        Ok(Seq::empty())
    } else {
        match resolved_assignments(numbered, assignments.drop_last()) {
            Err(problem) => Err(problem),
            Ok(front) => match resolved_assignment(numbered, assignments.last()) {
                Ok(assignment) => Ok(front.push(assignment)),
                Err(problem) => Err(problem),
            },
        }
    }
}

/// Whether the error reports the problem of an assignment.
pub open spec fn assignment_reported(problem: SelectionProblem, error: AnalysisError) -> bool {
    match problem {
        SelectionProblem::NotSupported => error matches AnalysisError::FeatureNotSupported(
            feature,
        ) && feature@ == "expression"@,
        SelectionProblem::ColumnDoesNotExist(name) => error == AnalysisError::ColumnDoesNotExist(
            name,
        ),
    }
}

/// Resolves the column of an assignment and reads its expression.
pub fn resolve_assignment(numbered: &Vec<(u64, ColumnDefinition)>, assignment: &(String, Expr)) -> (resolved:
    Result<(u64, SqlType, ScalarOp), SelectionProblem>)
    ensures
        resolved == resolved_assignment(numbered@, *assignment),
{
    match find_column_of(numbered, &assignment.0) {
        None => Err(SelectionProblem::ColumnDoesNotExist(assignment.0.clone())),
        Some((ordinal, sql_type)) => match read_expression(&assignment.1, MAX_DEPTH) {
            None => Err(SelectionProblem::NotSupported),
            Some(op) => match find_missing_column(numbered, &op) {
                Some(name) => Err(SelectionProblem::ColumnDoesNotExist(name)),
                None => Ok((ordinal, sql_type, op)),
            },
        },
    }
}

/// The problem among the first assignments is the problem of all.
pub proof fn lemma_missing_column_stays(
    numbered: Seq<(u64, ColumnDefinition)>,
    assignments: Seq<(String, Expr)>,
    n: int,
)
    requires
        0 <= n <= assignments.len(),
        resolved_assignments(numbered, assignments.take(n)) is Err,
    ensures
        resolved_assignments(numbered, assignments) == resolved_assignments(
            numbered,
            assignments.take(n),
        ),
    decreases assignments.len() - n,
{
    if n < assignments.len() {
        assert(assignments.take(n + 1).drop_last() =~= assignments.take(n));
        lemma_missing_column_stays(numbered, assignments, n + 1);
    } else {
        assert(assignments.take(n) =~= assignments);
    }
}

/// The ordinal and the type of the first column of the name.
pub fn find_column_of(numbered: &Vec<(u64, ColumnDefinition)>, name: &String) -> (column: Option<
    (u64, SqlType),
>)
    ensures
        column == column_of(numbered@, name@),
{
    let mut i: usize = 0;
    assert(numbered@.skip(0) =~= numbered@);
    while i < numbered.len()
        invariant
            i <= numbered.len(),
            column_of(numbered@, name@) == column_of(numbered@.skip(i as int), name@),
        decreases numbered.len() - i,
    {
        proof {
            assert(numbered@.skip(i as int).drop_first() =~= numbered@.skip(i + 1));
        }
        if numbered[i].1.name == *name {
            return Some((numbered[i].0, numbered[i].1.sql_type));
        }
        i = i + 1;
    }
    None
}

/// The ordinals of numbered columns, in order.
pub open spec fn ordinals_of(numbered: Seq<(u64, ColumnDefinition)>) -> Seq<u64> {
    numbered.map_values(|column: (u64, ColumnDefinition)| column.0)
}

/// What the items of a select are.
pub open spec fn projections(items: Seq<SelectItem>) -> Seq<Projection> {
    items.map_values(|item: SelectItem| projection_of(item))
}

/// The ordinals of the columns that items select, item by item: all
/// columns of the table in their order for the wildcard, and the column
/// of the name for a name; or the problem of the first item that has one.
pub open spec fn projected(numbered: Seq<(u64, ColumnDefinition)>, items: Seq<Projection>) -> Result<
    Seq<u64>,
    ProjectionProblem,
>
    decreases items.len(),
{
    if items.len() == 0 {
        Ok(Seq::empty())
    } else {
        match projected(numbered, items.drop_last()) {
            Err(problem) => Err(problem),
            Ok(front) => match items.last() {
                Projection::Wildcard => Ok(front + ordinals_of(numbered)),
                Projection::Column(name) => match ordinal_of(numbered, name@) {
                    Some(ordinal) => Ok(front.push(ordinal)),
                    None => Err(ProjectionProblem::ColumnDoesNotExist(name)),
                },
                Projection::Other => Err(ProjectionProblem::NotSupported),
            },
        }
    }
}

/// The problem of the first items is the problem of all items.
pub proof fn lemma_projection_problem_stays(
    numbered: Seq<(u64, ColumnDefinition)>,
    items: Seq<Projection>,
    n: int,
)
    requires
        0 <= n <= items.len(),
        projected(numbered, items.take(n)) is Err,
    ensures
        projected(numbered, items) == projected(numbered, items.take(n)),
    decreases items.len() - n,
{
    if n < items.len() {
        assert(items.take(n + 1).drop_last() =~= items.take(n));
        lemma_projection_problem_stays(numbered, items, n + 1);
    } else {
        assert(items.take(n) =~= items);
    }
}

/// Whether one of the flags is set.
pub fn any_set(flags: &Vec<bool>) -> (set: bool)
    ensures
        set == flags@.contains(true),
{
    let mut i: usize = 0;
    while i < flags.len()
        invariant
            i <= flags.len(),
            forall|j: int| 0 <= j < i ==> !flags@[j],
        decreases flags.len() - i,
    {
        if flags[i] {
            assert(flags@[i as int] == true);
            return true;
        }
        i = i + 1;
    }
    false
}

/// The ordinal of the first column of the name.
pub fn find_ordinal(numbered: &Vec<(u64, ColumnDefinition)>, name: &String) -> (ordinal: Option<u64>)
    ensures
        ordinal == ordinal_of(numbered@, name@),
{
    let mut i: usize = 0;
    assert(numbered@.skip(0) =~= numbered@);
    while i < numbered.len()
        invariant
            i <= numbered.len(),
            ordinal_of(numbered@, name@) == ordinal_of(numbered@.skip(i as int), name@),
        decreases numbered.len() - i,
    {
        proof {
            assert(numbered@.skip(i as int).drop_first() =~= numbered@.skip(i + 1));
        }
        if numbered[i].1.name == *name {
            return Some(numbered[i].0);
        }
        i = i + 1;
    }
    None
}

/// The ordinals of the columns that the items select, or the problem of
/// the first item that has one.
pub fn project(numbered: &Vec<(u64, ColumnDefinition)>, items: &Vec<SelectItem>) -> (selected: Result<
    Vec<u64>,
    ProjectionProblem,
>)
    ensures
        match selected {
            Ok(ordinals) => projected(numbered@, projections(items@)) == Ok::<
                Seq<u64>,
                ProjectionProblem,
            >(ordinals@),
            Err(problem) => projected(numbered@, projections(items@)) == Err::<
                Seq<u64>,
                ProjectionProblem,
            >(problem),
        },
{
    let ghost all = projections(items@);
    let mut ordinals: Vec<u64> = Vec::new();
    let mut i: usize = 0;
    assert(all.take(0) =~= Seq::empty());
    while i < items.len()
        invariant
            i <= items.len(),
            all == projections(items@),
            projected(numbered@, all.take(i as int)) == Ok::<Seq<u64>, ProjectionProblem>(
                ordinals@,
            ),
        decreases items.len() - i,
    {
        proof {
            assert(all.take(i + 1).drop_last() =~= all.take(i as int));
            assert(all.take(i + 1).last() == projection_of(items@[i as int]));
        }
        let ghost front = ordinals@;
        match read_projection(&items[i]) {
            Projection::Wildcard => {
                let mut c: usize = 0;
                while c < numbered.len()
                    invariant
                        c <= numbered.len(),
                        ordinals@ == front + ordinals_of(numbered@).take(c as int),
                    decreases numbered.len() - c,
                {
                    ordinals.push(numbered[c].0);
                    c = c + 1;
                    assert(ordinals@ =~= front + ordinals_of(numbered@).take(c as int));
                }
                assert(ordinals_of(numbered@).take(c as int) =~= ordinals_of(numbered@));
            },
            Projection::Column(name) => {
                match find_ordinal(numbered, &name) {
                    Some(ordinal) => {
                        ordinals.push(ordinal);
                    },
                    None => {
                        proof {
                            lemma_projection_problem_stays(numbered@, all, i + 1);
                        }
                        return Err(ProjectionProblem::ColumnDoesNotExist(name));
                    },
                }
            },
            Projection::Other => {
                proof {
                    lemma_projection_problem_stays(numbered@, all, i + 1);
                }
                return Err(ProjectionProblem::NotSupported);
            },
        }
        i = i + 1;
    }
    assert(all.take(i as int) =~= all);
    Ok(ordinals)
}

/// The names of columns.
pub open spec fn column_names(columns: Seq<ColumnInfo>) -> Seq<Seq<char>> {
    columns.map_values(|column: ColumnInfo| column.name@)
}

/// The first name that comes a second time.
pub open spec fn duplicate_in(names: Seq<Seq<char>>) -> Option<Seq<char>>
    decreases names.len(),
{
    if names.len() == 0 {
        None
    } else {
        match duplicate_in(names.drop_last()) {
            Some(name) => Some(name),
            None => if names.drop_last().contains(names.last()) {
                Some(names.last())
            } else {
                None
            },
        }
    }
}

/// The first name among the columns that comes a second time.
pub fn find_duplicate(columns: &Vec<ColumnInfo>) -> (duplicate: Option<String>)
    ensures
        match duplicate {
            Some(name) => duplicate_in(column_names(columns@)) == Some(name@),
            None => duplicate_in(column_names(columns@)) is None,
        },
{
    let ghost names = column_names(columns@);
    let mut j: usize = 0;
    assert(names.take(0) =~= Seq::empty());
    while j < columns.len()
        invariant
            j <= columns.len(),
            names == column_names(columns@),
            duplicate_in(names.take(j as int)) is None,
        decreases columns.len() - j,
    {
        proof {
            assert(names.take(j + 1).drop_last() =~= names.take(j as int));
            assert(names.take(j + 1).last() == names[j as int]);
        }
        let mut i: usize = 0;
        while i < j
            invariant
                i <= j < columns.len(),
                names == column_names(columns@),
                duplicate_in(names.take(j as int)) is None,
                forall|k: int| 0 <= k < i ==> names[k] != names[j as int],
            decreases j - i,
        {
            if columns[i].name == columns[j].name {
                proof {
                    let upto = names.take(j + 1);
                    assert(upto.drop_last() =~= names.take(j as int));
                    assert(upto.last() == names[j as int]);
                    assert(names.take(j as int)[i as int] == names[j as int]);
                    assert(upto.drop_last().contains(upto.last()));
                    assert(duplicate_in(upto) == Some(names[j as int]));
                    lemma_duplicate_stays(names, j + 1);
                }
                return Some(columns[j].name.clone());
            }
            i = i + 1;
        }
        assert(!names.take(j as int).contains(names[j as int]));
        j = j + 1;
    }
    assert(names.take(j as int) =~= names);
    None
}

/// A name that comes a second time among the first names is the first
/// that does so among all.
pub proof fn lemma_duplicate_stays(names: Seq<Seq<char>>, n: int)
    requires
        0 <= n <= names.len(),
        duplicate_in(names.take(n)) is Some,
    ensures
        duplicate_in(names) == duplicate_in(names.take(n)),
    decreases names.len() - n,
{
    if n < names.len() {
        assert(names.take(n + 1).drop_last() =~= names.take(n));
        lemma_duplicate_stays(names, n + 1);
    } else {
        assert(names.take(n) =~= names);
    }
}

pub proof fn lemma_supported_prefix_len(columns: Seq<(String, DataType)>)
    ensures
        supported_prefix(columns).len() <= columns.len(),
    decreases columns.len(),
{
    if columns.len() > 0 {
        lemma_supported_prefix_len(columns.drop_last());
    }
}

/// The columns that come after a column that is no column type do not
/// change what was read before it.
pub proof fn lemma_supported_prefix_stops(columns: Seq<(String, DataType)>, n: int)
    requires
        0 <= n <= columns.len(),
        supported_prefix(columns.take(n)).len() < n,
    ensures
        supported_prefix(columns) == supported_prefix(columns.take(n)),
    decreases columns.len() - n,
{
    if n < columns.len() {
        lemma_supported_prefix_len(columns.take(n));
        assert(columns.take(n + 1).drop_last() =~= columns.take(n));
        lemma_supported_prefix_stops(columns, n + 1);
    } else {
        assert(columns.take(n) =~= columns);
    }
}

/// Resolves names against the catalog of definitions.
#[derive(Debug)]
pub struct Analyzer<'a> {
    metadata: &'a DataDefinition,
}

impl<'a> Analyzer<'a> {
    /// The definitions that names are resolved against.
    pub closed spec fn definitions(&self) -> crate::metadata::Definitions {
        self.metadata@
    }

    pub fn new(metadata: &'a DataDefinition) -> (analyzer: Analyzer<'a>)
        ensures
            analyzer.definitions() == metadata@,
    {
        Analyzer { metadata }
    }

    /// What describing an insert into the table of the two names gives.
    pub open spec fn insert_described(
        &self,
        schema_name: Seq<char>,
        table_name: Seq<char>,
        described: Result<Description, DescriptionError>,
    ) -> bool {
        let found = self.definitions().table_found(DEFAULT_CATALOG@, schema_name, table_name);
        match described {
            Ok(Description::Insert(insert)) => {
                &&& found matches Some((_, Some((schema_id, Some(table_id)))))
                &&& insert.table_id == (schema_id, table_id)
                &&& insert.sql_types@ == self.definitions().column_types(table_id)
            },
            Err(DescriptionError::TableDoesNotExist(name)) => {
                &&& found matches Some((_, Some((_, None))))
                &&& name@ == schema_name + "."@ + table_name
            },
            Err(DescriptionError::SchemaDoesNotExist(name)) => {
                &&& (found is None || found == Some((found.unwrap().0, None::<(u64, Option<u64>)>)))
                &&& name@ == schema_name
            },
        }
    }

    /// Describes an insert into the table of the two names: the handle of
    /// the table and the types of its columns in order, or which of the two
    /// names was not found.
    pub fn describe_insert(&self, schema_name: &str, table_name: &str) -> (described: Result<
        Description,
        DescriptionError,
    >)
        ensures
            self.insert_described(schema_name@, table_name@, described),
    {
        match self.metadata.table_desc(DEFAULT_CATALOG, schema_name, table_name) {
            Ok(table) => {
                let sql_types = table.column_types();
                proof {
                    let table_id = table.table_id;
                    assert(sql_types@ =~= self.definitions().column_types(table_id));
                }
                Ok(Description::Insert(InsertStatement { table_id: table.full_table_id(), sql_types }))
            },
            Err(NotFoundError::Object) => {
                let mut name = schema_name.to_owned();
                name.append(".");
                name.append(table_name);
                Err(DescriptionError::TableDoesNotExist(name))
            },
            Err(NotFoundError::Schema) => Err(DescriptionError::schema_does_not_exist(schema_name)),
        }
    }

    /// Describes a statement that is an insert into a table named by a
    /// schema and a table.
    pub fn describe(&self, statement: &Statement) -> (described: Result<
        Description,
        DescriptionError,
    >)
        requires
            insert_of(*statement) matches Some(parts) && parts.name@.len() == 2,
        ensures
            self.insert_described(
                insert_of(*statement).unwrap().name@[0]@,
                insert_of(*statement).unwrap().name@[1]@,
                described,
            ),
    {
        match read_insert(statement) {
            Some(parts) => self.describe_insert(parts.name[0].as_str(), parts.name[1].as_str()),
            None => vstd::pervasive::unreached(),
        }
    }

    /// Describes a statement where it is an insert into a table named by a
    /// schema and a table, and says nothing of any other statement.
    pub fn try_describe(&self, statement: &Statement) -> (described: Option<
        Result<Description, DescriptionError>,
    >)
        ensures
            match described {
                Some(described) => {
                    &&& insert_of(*statement) matches Some(parts)
                    &&& parts.name@.len() == 2
                    &&& self.insert_described(parts.name@[0]@, parts.name@[1]@, described)
                },
                None => !(insert_of(*statement) matches Some(parts) && parts.name@.len() == 2),
            },
    {
        match read_insert(statement) {
            Some(parts) => {
                if parts.name.len() == 2 {
                    Some(self.describe(statement))
                } else {
                    None
                }
            },
            None => None,
        }
    }

    /// What analysing a `CREATE TABLE` gives.
    pub open spec fn create_table_analysed(
        &self,
        parts: CreateTableParts,
        analysed: Result<QueryAnalysis, AnalysisError>,
    ) -> bool {
        let name = texts(parts.name@);
        let found = self.definitions().schema_found(DEFAULT_CATALOG@, name[0]);
        let columns = supported_prefix(parts.columns@);
        match analysed {
            Ok(QueryAnalysis::DataDefinition(SchemaChange::CreateTable(query))) => {
                &&& name.len() == 2
                &&& found matches Some((_, Some(schema_id)))
                &&& columns.len() == parts.columns@.len()
                &&& duplicate_in(column_names(columns)) is None
                &&& query.table_info.schema_id == schema_id
                &&& query.table_info.schema_name@ == name[0]
                &&& query.table_info.table_name@ == name[1]
                &&& query.column_defs@ == columns
                &&& query.if_not_exists == parts.if_not_exists
            },
            Err(AnalysisError::TableNamingError(message)) => {
                &&& name.len() != 2
                &&& message@ == (if name.len() == 1 {
                    unqualified_name_text(name[0])
                } else {
                    unprocessed_name_text(dotted(name))
                })
            },
            Err(AnalysisError::SchemaDoesNotExist(schema_name)) => {
                &&& name.len() == 2
                &&& (found is None || found == Some((found.unwrap().0, None::<u64>)))
                &&& schema_name@ == name[0]
            },
            Err(AnalysisError::DuplicateColumn(column)) => {
                &&& name.len() == 2
                &&& found matches Some((_, Some(_)))
                &&& columns.len() == parts.columns@.len()
                &&& duplicate_in(column_names(columns)) == Some(column@)
            },
            Err(AnalysisError::TypeIsNotSupported(raw_type)) => {
                &&& name.len() == 2
                &&& found matches Some((_, Some(_)))
                &&& columns.len() < parts.columns@.len()
                &&& raw_type@ == raw_type_text(
                    declared_type_of(parts.columns@[columns.len() as int].1),
                )
            },
            _ => false,
        }
    }

    /// Analyses a `CREATE TABLE`. The name must have two parts, a schema
    /// and a table; the schema must exist; every column must have a type
    /// that is a column type; no two columns may have one name. Whether
    /// the schema has a table of the name already is not asked here.
    pub fn analyze_create_table(&self, parts: &CreateTableParts) -> (analysed: Result<
        QueryAnalysis,
        AnalysisError,
    >)
        ensures
            self.create_table_analysed(*parts, analysed),
    {
        if parts.name.len() == 1 {
            let mut message = String::new();
            message.append("Unsupported table name '");
            message.append(parts.name[0].as_str());
            message.append("'. All table names must be qualified");
            assert(message@ =~= unqualified_name_text(texts(parts.name@)[0]));
            return Err(AnalysisError::TableNamingError(message));
        }
        if parts.name.len() != 2 {
            let mut message = String::new();
            message.append("Unable to process table name '");
            message.append(join_dotted(&parts.name).as_str());
            message.append("'");
            assert(message@ =~= unprocessed_name_text(dotted(texts(parts.name@))));
            return Err(AnalysisError::TableNamingError(message));
        }
        let schema_name = parts.name[0].as_str();
        let table_name = parts.name[1].as_str();
        let schema_id = match self.metadata.schema_exists(DEFAULT_CATALOG, schema_name) {
            Some((_, Some(schema_id))) => schema_id,
            _ => {
                return Err(AnalysisError::schema_does_not_exist(schema_name));
            },
        };
        let mut column_defs: Vec<ColumnInfo> = Vec::new();
        let mut i: usize = 0;
        assert(parts.columns@.take(0) =~= Seq::empty());
        while i < parts.columns.len()
            invariant
                i <= parts.columns.len(),
                column_defs@ == supported_prefix(parts.columns@.take(i as int)),
                column_defs@.len() == i,
                parts.name@.len() == 2,
                self.definitions().schema_found(DEFAULT_CATALOG@, parts.name@[0]@) is Some,
                self.definitions().schema_found(DEFAULT_CATALOG@, parts.name@[0]@).unwrap().1
                    is Some,
            decreases parts.columns.len() - i,
        {
            proof {
                assert(parts.columns@.take(i + 1).drop_last() =~= parts.columns@.take(i as int));
            }
            let column_type = read_declared_type(&parts.columns[i].1);
            match SqlType::from_column_type(&column_type) {
                Ok(sql_type) => {
                    column_defs.push(ColumnInfo { name: parts.columns[i].0.clone(), sql_type });
                },
                Err(_) => {
                    let raw_type = match &column_type {
                        ColumnType::Custom(name) => join_dotted(name),
                        _ => "unknown".to_owned(),
                    };
                    proof {
                        let upto = parts.columns@.take(i + 1);
                        assert(upto.last() == parts.columns@[i as int]);
                        assert(supported_prefix(upto) == column_defs@);
                        lemma_supported_prefix_stops(parts.columns@, i + 1);
                        assert(supported_prefix(parts.columns@).len() == i);
                        assert(raw_type@ == raw_type_text(column_type));
                    }
                    return Err(AnalysisError::TypeIsNotSupported(raw_type));
                },
            }
            i = i + 1;
        }
        assert(parts.columns@.take(i as int) =~= parts.columns@);
        if let Some(column) = find_duplicate(&column_defs) {
            return Err(AnalysisError::DuplicateColumn(column));
        }
        Ok(
            QueryAnalysis::DataDefinition(
                SchemaChange::CreateTable(
                    CreateTableQuery {
                        table_info: TableInfo::new(schema_id, schema_name, table_name),
                        column_defs,
                        if_not_exists: parts.if_not_exists,
                    },
                ),
            ),
        )
    }

    /// What resolving the name of a table gives.
    pub open spec fn table_resolved(
        &self,
        name: Seq<Seq<char>>,
        resolved: Result<FullTableId, AnalysisError>,
    ) -> bool {
        let found = self.definitions().table_found(DEFAULT_CATALOG@, name[0], name[1]);
        match resolved {
            Ok(table_id) => {
                &&& name.len() == 2
                &&& found == Some((found.unwrap().0, Some((table_id.0, Some(table_id.1)))))
            },
            Err(AnalysisError::TableNamingError(message)) => {
                &&& name.len() != 2
                &&& message@ == (if name.len() == 1 {
                    unqualified_name_text(name[0])
                } else {
                    unprocessed_name_text(dotted(name))
                })
            },
            Err(AnalysisError::SchemaDoesNotExist(schema_name)) => {
                &&& name.len() == 2
                &&& (found is None || found == Some((found.unwrap().0, None::<(u64, Option<u64>)>)))
                &&& schema_name@ == name[0]
            },
            Err(AnalysisError::TableDoesNotExist(table_name)) => {
                &&& name.len() == 2
                &&& found is Some
                &&& found.unwrap().1 is Some
                &&& found.unwrap().1.unwrap().1 is None
                &&& table_name@ == name[0] + "."@ + name[1]
            },
            _ => false,
        }
    }

    /// Resolves the name of a table to its handle. The name must have two
    /// parts, a schema and a table, and both must exist.
    pub fn resolve_table(&self, name: &Vec<String>) -> (resolved: Result<FullTableId, AnalysisError>)
        ensures
            self.table_resolved(texts(name@), resolved),
    {
        if name.len() == 1 {
            let mut message = String::new();
            message.append("Unsupported table name '");
            message.append(name[0].as_str());
            message.append("'. All table names must be qualified");
            assert(message@ =~= unqualified_name_text(texts(name@)[0]));
            return Err(AnalysisError::TableNamingError(message));
        }
        if name.len() != 2 {
            let mut message = String::new();
            message.append("Unable to process table name '");
            message.append(join_dotted(name).as_str());
            message.append("'");
            assert(message@ =~= unprocessed_name_text(dotted(texts(name@))));
            return Err(AnalysisError::TableNamingError(message));
        }
        match self.metadata.table_exists(DEFAULT_CATALOG, name[0].as_str(), name[1].as_str()) {
            Some((_, Some((schema_id, Some(table_id))))) => Ok((schema_id, table_id)),
            Some((_, Some((_, None)))) => {
                let mut qualified = name[0].clone();
                qualified.append(".");
                qualified.append(name[1].as_str());
                Err(AnalysisError::TableDoesNotExist(qualified))
            },
            _ => Err(AnalysisError::schema_does_not_exist(name[0].as_str())),
        }
    }

    /// Whether a table that is to be dropped is passed over: it does not
    /// exist, or its schema does not, and `IF EXISTS` was written.
    pub open spec fn passed_over(
        &self,
        name: Seq<Seq<char>>,
        if_exists: bool,
    ) -> bool {
        let found = self.definitions().table_found(DEFAULT_CATALOG@, name[0], name[1]);
        &&& if_exists
        &&& name.len() == 2
        &&& !(found is Some && found.unwrap().1 is Some && found.unwrap().1.unwrap().1 is Some)
    }

    /// The handles of the tables among the first names that are dropped,
    /// where none of those names is refused.
    pub open spec fn dropped_handles(&self, names: Seq<Vec<String>>, if_exists: bool) -> Seq<
        FullTableId,
    >
        decreases names.len(),
    {
        if names.len() == 0 {
            Seq::empty()
        } else {
            let front = self.dropped_handles(names.drop_last(), if_exists);
            let name = texts(names.last()@);
            let found = self.definitions().table_found(DEFAULT_CATALOG@, name[0], name[1]);
            if name.len() == 2 && found is Some && found.unwrap().1 is Some && found.unwrap().1.unwrap().1
                is Some {
                front.push((found.unwrap().1.unwrap().0, found.unwrap().1.unwrap().1.unwrap()))
            } else {
                front
            }
        }
    }

    /// What analysing a `DROP TABLE` gives.
    pub open spec fn drop_tables_analysed(
        &self,
        parts: DropParts,
        analysed: Result<QueryAnalysis, AnalysisError>,
    ) -> bool {
        match analysed {
            Ok(QueryAnalysis::DataDefinition(SchemaChange::DropTables(query))) => {
                &&& forall|i: int|
                    0 <= i < parts.names@.len() ==> (#[trigger] self.passed_over(
                        texts(parts.names@[i]@),
                        parts.if_exists,
                    ) || exists|table_id: FullTableId|
                        self.table_resolved(
                            texts(parts.names@[i]@),
                            Ok::<FullTableId, AnalysisError>(table_id),
                        ))
                &&& query.table_ids@ == self.dropped_handles(parts.names@, parts.if_exists)
                &&& query.cascade == parts.cascade
                &&& query.if_exists == parts.if_exists
            },
            Ok(_) => false,
            Err(error) => exists|i: int|
                {
                    &&& 0 <= i < parts.names@.len()
                    &&& !self.passed_over(texts(#[trigger] parts.names@[i]@), parts.if_exists)
                    &&& self.table_resolved(
                        texts(parts.names@[i]@),
                        Err::<FullTableId, AnalysisError>(error),
                    )
                    &&& forall|j: int|
                        0 <= j < i ==> (#[trigger] self.passed_over(
                            texts(parts.names@[j]@),
                            parts.if_exists,
                        ) || exists|table_id: FullTableId|
                            self.table_resolved(
                                texts(parts.names@[j]@),
                                Ok::<FullTableId, AnalysisError>(table_id),
                            ))
                },
        }
    }

    /// Analyses a `DROP TABLE`: resolves each name in its turn and stops at
    /// the first that is refused. With `IF EXISTS`, a table that does not
    /// exist is passed over.
    pub fn analyze_drop_tables(&self, parts: &DropParts) -> (analysed: Result<
        QueryAnalysis,
        AnalysisError,
    >)
        ensures
            self.drop_tables_analysed(*parts, analysed),
    {
        let mut table_ids: Vec<FullTableId> = Vec::new();
        let mut i: usize = 0;
        assert(parts.names@.take(0) =~= Seq::empty());
        while i < parts.names.len()
            invariant
                i <= parts.names.len(),
                table_ids@ == self.dropped_handles(parts.names@.take(i as int), parts.if_exists),
                forall|j: int|
                    0 <= j < i ==> (#[trigger] self.passed_over(
                        texts(parts.names@[j]@),
                        parts.if_exists,
                    ) || exists|table_id: FullTableId|
                        self.table_resolved(
                            texts(parts.names@[j]@),
                            Ok::<FullTableId, AnalysisError>(table_id),
                        )),
            decreases parts.names.len() - i,
        {
            proof {
                assert(parts.names@.take(i + 1).drop_last() =~= parts.names@.take(i as int));
                assert(parts.names@.take(i + 1).last() == parts.names@[i as int]);
            }
            let resolved = self.resolve_table(&parts.names[i]);
            match resolved {
                Ok(table_id) => {
                    assert(self.table_resolved(
                        texts(parts.names@[i as int]@),
                        Ok::<FullTableId, AnalysisError>(table_id),
                    ));
                    table_ids.push(table_id);
                },
                Err(error) => {
                    let missing = match &error {
                        AnalysisError::SchemaDoesNotExist(_) => true,
                        AnalysisError::TableDoesNotExist(_) => true,
                        _ => false,
                    };
                    if !(parts.if_exists && missing) {
                        assert(!self.passed_over(texts(parts.names@[i as int]@), parts.if_exists));
                        return Err(error);
                    }
                    assert(self.passed_over(texts(parts.names@[i as int]@), parts.if_exists));
                },
            }
            i = i + 1;
        }
        assert(parts.names@.take(i as int) =~= parts.names@);
        Ok(
            QueryAnalysis::DataDefinition(
                SchemaChange::DropTables(
                    DropTablesQuery {
                        table_ids,
                        cascade: parts.cascade,
                        if_exists: parts.if_exists,
                    },
                ),
            ),
        )
    }

    /// What analysing a `DELETE` gives: the handle of the table and the
    /// expression that its `WHERE` writes; or why the table is not
    /// resolved; or, for the table that is, that the `WHERE` is not
    /// supported where it writes no expression that can be evaluated, and
    /// else the first column of the expression that the table does not
    /// have.
    pub open spec fn delete_analysed(
        &self,
        parts: DeleteParts,
        analysed: Result<QueryAnalysis, AnalysisError>,
    ) -> bool {
        match analysed {
            Ok(QueryAnalysis::Write(Write::Delete { table_id, predicate })) => {
                &&& self.table_resolved(
                    texts(parts.name@),
                    Ok::<FullTableId, AnalysisError>(table_id),
                )
                &&& selection_of(self.definitions().table_columns(table_id.1), parts.selection)
                    == Ok::<Option<ScalarOp>, SelectionProblem>(predicate)
            },
            Ok(_) => false,
            Err(error) => {
                ||| self.table_resolved(
                    texts(parts.name@),
                    Err::<FullTableId, AnalysisError>(error),
                )
                ||| exists|table_id: FullTableId|
                    {
                        &&& #[trigger] self.table_resolved(
                            texts(parts.name@),
                            Ok::<FullTableId, AnalysisError>(table_id),
                        )
                        &&& selection_of(
                            self.definitions().table_columns(table_id.1),
                            parts.selection,
                        ) matches Err(problem)
                        &&& selection_reported(problem, error)
                    }
            },
        }
    }

    /// Analyses a `DELETE`: resolves the table, and reads the expression
    /// of the `WHERE`, where one is written.
    pub fn analyze_delete(&self, parts: &DeleteParts) -> (analysed: Result<
        QueryAnalysis,
        AnalysisError,
    >)
        ensures
            self.delete_analysed(*parts, analysed),
    {
        let table_id = match self.resolve_table(&parts.name) {
            Ok(table_id) => table_id,
            Err(error) => {
                return Err(error);
            },
        };
        let numbered = self.metadata.table_columns(table_id.1);
        match read_selection(&numbered, &parts.selection) {
            Ok(predicate) => Ok(QueryAnalysis::Write(Write::Delete { table_id, predicate })),
            Err(SelectionProblem::NotSupported) => Err(
                AnalysisError::FeatureNotSupported("WHERE".to_owned()),
            ),
            Err(SelectionProblem::ColumnDoesNotExist(name)) => Err(
                AnalysisError::ColumnDoesNotExist(name),
            ),
        }
    }

    /// What resolving the name of a schema gives.
    pub open spec fn schema_resolved(
        &self,
        name: Seq<Seq<char>>,
        resolved: Result<String, AnalysisError>,
    ) -> bool {
        match resolved {
            Ok(schema_name) => {
                &&& name.len() == 1
                &&& schema_name@ == name[0]
                &&& self.has_schema(name[0])
            },
            Err(AnalysisError::SyntaxError(message)) => {
                &&& name.len() != 1
                &&& message@ == unprocessed_schema_text(dotted(name))
            },
            Err(AnalysisError::SchemaDoesNotExist(schema_name)) => {
                &&& name.len() == 1
                &&& schema_name@ == name[0]
                &&& !self.has_schema(name[0])
            },
            _ => false,
        }
    }

    /// Whether the default catalog has a schema of the name.
    pub open spec fn has_schema(&self, schema_name: Seq<char>) -> bool {
        let found = self.definitions().schema_found(DEFAULT_CATALOG@, schema_name);
        found is Some && found.unwrap().1 is Some
    }

    /// The text that refuses a schema name.
    fn refuse_schema_name(name: &Vec<String>) -> (error: AnalysisError)
        ensures
            error matches AnalysisError::SyntaxError(message) && message@
                == unprocessed_schema_text(dotted(texts(name@))),
    {
        let mut message = String::new();
        message.append("Unable to process schema name '");
        message.append(join_dotted(name).as_str());
        message.append("'");
        assert(message@ =~= unprocessed_schema_text(dotted(texts(name@))));
        AnalysisError::SyntaxError(message)
    }

    /// Resolves the name of a schema: it must have one part and the
    /// default catalog must have a schema of that name.
    pub fn resolve_schema(&self, name: &Vec<String>) -> (resolved: Result<String, AnalysisError>)
        ensures
            self.schema_resolved(texts(name@), resolved),
    {
        if name.len() != 1 {
            return Err(Self::refuse_schema_name(name));
        }
        match self.metadata.schema_exists(DEFAULT_CATALOG, name[0].as_str()) {
            Some((_, Some(_))) => Ok(name[0].clone()),
            _ => Err(AnalysisError::schema_does_not_exist(name[0].as_str())),
        }
    }

    /// What analysing a `CREATE SCHEMA` gives.
    pub open spec fn create_schema_analysed(
        &self,
        name: Seq<Seq<char>>,
        analysed: Result<QueryAnalysis, AnalysisError>,
    ) -> bool {
        match analysed {
            Ok(QueryAnalysis::DataDefinition(SchemaChange::CreateSchema(query))) => {
                &&& name.len() == 1
                &&& query.schema_name@ == name[0]
                &&& !query.if_not_exists
            },
            Err(AnalysisError::SyntaxError(message)) => {
                &&& name.len() != 1
                &&& message@ == unprocessed_schema_text(dotted(name))
            },
            _ => false,
        }
    }

    /// Analyses a `CREATE SCHEMA`: the name must have one part. Whether
    /// there is such a schema already is not asked here.
    pub fn analyze_create_schema(&self, name: &Vec<String>) -> (analysed: Result<
        QueryAnalysis,
        AnalysisError,
    >)
        ensures
            self.create_schema_analysed(texts(name@), analysed),
    {
        if name.len() != 1 {
            return Err(Self::refuse_schema_name(name));
        }
        Ok(
            QueryAnalysis::DataDefinition(
                SchemaChange::CreateSchema(
                    CreateSchemaQuery { schema_name: name[0].clone(), if_not_exists: false },
                ),
            ),
        )
    }

    /// Whether a schema that is to be dropped is passed over: it does not
    /// exist, and `IF EXISTS` was written.
    pub open spec fn schema_passed_over(&self, name: Seq<Seq<char>>, if_exists: bool) -> bool {
        if_exists && name.len() == 1 && !self.has_schema(name[0])
    }

    /// The names of the schemas among the names that are dropped.
    pub open spec fn dropped_schemas(&self, names: Seq<Vec<String>>) -> Seq<String>
        decreases names.len(),
    {
        if names.len() == 0 {
            Seq::empty()
        } else {
            let front = self.dropped_schemas(names.drop_last());
            let name = names.last()@;
            if name.len() == 1 && self.has_schema(name[0]@) {
                front.push(name[0])
            } else {
                front
            }
        }
    }

    /// What analysing a `DROP SCHEMA` gives.
    pub open spec fn drop_schemas_analysed(
        &self,
        parts: DropParts,
        analysed: Result<QueryAnalysis, AnalysisError>,
    ) -> bool {
        match analysed {
            Ok(QueryAnalysis::DataDefinition(SchemaChange::DropSchemas(query))) => {
                &&& forall|i: int|
                    0 <= i < parts.names@.len() ==> (#[trigger] self.schema_passed_over(
                        texts(parts.names@[i]@),
                        parts.if_exists,
                    ) || (parts.names@[i]@.len() == 1 && self.has_schema(parts.names@[i]@[0]@)))
                &&& query.schema_names@ == self.dropped_schemas(parts.names@)
                &&& query.cascade == parts.cascade
                &&& query.if_exists == parts.if_exists
            },
            Ok(_) => false,
            Err(error) => exists|i: int|
                {
                    &&& 0 <= i < parts.names@.len()
                    &&& !self.schema_passed_over(texts(#[trigger] parts.names@[i]@), parts.if_exists)
                    &&& self.schema_resolved(
                        texts(parts.names@[i]@),
                        Err::<String, AnalysisError>(error),
                    )
                    &&& forall|j: int|
                        0 <= j < i ==> (#[trigger] self.schema_passed_over(
                            texts(parts.names@[j]@),
                            parts.if_exists,
                        ) || (parts.names@[j]@.len() == 1 && self.has_schema(
                            parts.names@[j]@[0]@,
                        )))
                },
        }
    }

    /// Analyses a `DROP SCHEMA`: resolves each name in its turn and stops
    /// at the first that is refused. With `IF EXISTS`, a schema that does
    /// not exist is passed over.
    pub fn analyze_drop_schemas(&self, parts: &DropParts) -> (analysed: Result<
        QueryAnalysis,
        AnalysisError,
    >)
        ensures
            self.drop_schemas_analysed(*parts, analysed),
    {
        let mut schema_names: Vec<String> = Vec::new();
        let mut i: usize = 0;
        assert(parts.names@.take(0) =~= Seq::empty());
        while i < parts.names.len()
            invariant
                i <= parts.names.len(),
                schema_names@ == self.dropped_schemas(parts.names@.take(i as int)),
                forall|j: int|
                    0 <= j < i ==> (#[trigger] self.schema_passed_over(
                        texts(parts.names@[j]@),
                        parts.if_exists,
                    ) || (parts.names@[j]@.len() == 1 && self.has_schema(
                        parts.names@[j]@[0]@,
                    ))),
            decreases parts.names.len() - i,
        {
            proof {
                assert(parts.names@.take(i + 1).drop_last() =~= parts.names@.take(i as int));
                assert(parts.names@.take(i + 1).last() == parts.names@[i as int]);
            }
            let ghost name = texts(parts.names@[i as int]@);
            match self.resolve_schema(&parts.names[i]) {
                Ok(_) => {
                    assert(name[0] == parts.names@[i as int]@[0]@);
                    schema_names.push(parts.names[i][0].clone());
                },
                Err(error) => {
                    let missing = match &error {
                        AnalysisError::SchemaDoesNotExist(_) => true,
                        _ => false,
                    };
                    if !(parts.if_exists && missing) {
                        assert(!self.schema_passed_over(name, parts.if_exists));
                        return Err(error);
                    }
                    assert(name[0] == parts.names@[i as int]@[0]@);
                    assert(self.schema_passed_over(name, parts.if_exists));
                },
            }
            i = i + 1;
        }
        assert(parts.names@.take(i as int) =~= parts.names@);
        Ok(
            QueryAnalysis::DataDefinition(
                SchemaChange::DropSchemas(
                    DropSchemasQuery {
                        schema_names,
                        cascade: parts.cascade,
                        if_exists: parts.if_exists,
                    },
                ),
            ),
        )
    }

    /// What analysing an `INSERT` of rows of values gives.
    pub open spec fn insert_analysed(
        &self,
        parts: InsertParts,
        analysed: Result<QueryAnalysis, AnalysisError>,
    ) -> bool {
        match analysed {
            Ok(QueryAnalysis::Write(Write::Insert(query))) => {
                &&& self.table_resolved(
                    texts(parts.name@),
                    Ok::<FullTableId, AnalysisError>(query.table_id),
                )
                &&& parts.columns@.len() == 0
                &&& query.sql_types@ == self.definitions().column_types(query.table_id.1)
                &&& rows_view(query.rows@) == literals(parts.rows@)
            },
            Ok(_) => false,
            Err(error) => {
                ||| self.table_resolved(
                    texts(parts.name@),
                    Err::<FullTableId, AnalysisError>(error),
                )
                ||| {
                    &&& exists|table_id: FullTableId|
                        self.table_resolved(
                            texts(parts.name@),
                            Ok::<FullTableId, AnalysisError>(table_id),
                        )
                    &&& parts.columns@.len() > 0
                    &&& error matches AnalysisError::FeatureNotSupported(feature)
                    &&& feature@ == "column list"@
                }
            },
        }
    }

    /// Analyses an `INSERT` of rows of values: resolves the table, reads
    /// the types of its columns, and reads the value that each expression
    /// writes. A list of columns is a feature that is not supported.
    pub fn analyze_insert(&self, parts: &InsertParts) -> (analysed: Result<
        QueryAnalysis,
        AnalysisError,
    >)
        ensures
            self.insert_analysed(*parts, analysed),
    {
        let table_id = match self.resolve_table(&parts.name) {
            Ok(table_id) => table_id,
            Err(error) => {
                return Err(error);
            },
        };
        if parts.columns.len() > 0 {
            return Err(AnalysisError::FeatureNotSupported("column list".to_owned()));
        }
        let numbered = self.metadata.table_columns(table_id.1);
        let mut sql_types: Vec<SqlType> = Vec::new();
        let mut c: usize = 0;
        while c < numbered.len()
            invariant
                c <= numbered.len(),
                numbered@ == self.definitions().table_columns(table_id.1),
                sql_types@ == self.definitions().column_types(table_id.1).take(c as int),
            decreases numbered.len() - c,
        {
            sql_types.push(numbered[c].1.sql_type);
            c = c + 1;
            assert(sql_types@ =~= self.definitions().column_types(table_id.1).take(c as int));
        }
        assert(self.definitions().column_types(table_id.1).take(c as int)
            =~= self.definitions().column_types(table_id.1));
        let mut rows: Vec<Vec<Literal>> = Vec::new();
        let mut r: usize = 0;
        while r < parts.rows.len()
            invariant
                r <= parts.rows.len(),
                rows_view(rows@) == literals(parts.rows@).take(r as int),
            decreases parts.rows.len() - r,
        {
            let mut row: Vec<Literal> = Vec::new();
            let mut v: usize = 0;
            while v < parts.rows[r].len()
                invariant
                    r < parts.rows.len(),
                    v <= parts.rows@[r as int]@.len(),
                    row@ == literals(parts.rows@)[r as int].take(v as int),
                decreases parts.rows@[r as int]@.len() - v,
            {
                row.push(read_literal(&parts.rows[r][v]));
                v = v + 1;
                assert(row@ =~= literals(parts.rows@)[r as int].take(v as int));
            }
            assert(literals(parts.rows@)[r as int].take(v as int) =~= literals(parts.rows@)[r as int]);
            let ghost before = rows_view(rows@);
            rows.push(row);
            r = r + 1;
            assert(rows_view(rows@) =~= before.push(literals(parts.rows@)[r - 1]));
            assert(rows_view(rows@) =~= literals(parts.rows@).take(r as int));
        }
        assert(literals(parts.rows@).take(r as int) =~= literals(parts.rows@));
        Ok(QueryAnalysis::Write(Write::Insert(InsertQuery { table_id, sql_types, rows })))
    }

    /// What analysing an `UPDATE` gives.
    pub open spec fn update_analysed(
        &self,
        parts: UpdateParts,
        analysed: Result<QueryAnalysis, AnalysisError>,
    ) -> bool {
        if parts.filtered {
            analysed matches Err(AnalysisError::FeatureNotSupported(feature)) && feature@
                == "WHERE"@
        } else {
            match analysed {
                Ok(QueryAnalysis::Write(Write::Update(query))) => {
                    &&& self.table_resolved(
                        texts(parts.name@),
                        Ok::<FullTableId, AnalysisError>(query.table_id),
                    )
                    &&& resolved_assignments(
                        self.definitions().table_columns(query.table_id.1),
                        parts.assignments@,
                    ) == Ok::<Seq<(u64, SqlType, ScalarOp)>, SelectionProblem>(
                        query.assignments@,
                    )
                },
                Ok(_) => false,
                Err(error) => {
                    ||| self.table_resolved(
                        texts(parts.name@),
                        Err::<FullTableId, AnalysisError>(error),
                    )
                    ||| exists|table_id: FullTableId|
                        {
                            &&& #[trigger] self.table_resolved(
                                texts(parts.name@),
                                Ok::<FullTableId, AnalysisError>(table_id),
                            )
                            &&& resolved_assignments(
                                self.definitions().table_columns(table_id.1),
                                parts.assignments@,
                            ) matches Err(problem)
                            &&& assignment_reported(problem, error)
                        }
                },
            }
        }
    }

    /// Analyses an `UPDATE` of all rows of a table: resolves the table and
    /// the column of each assignment, and reads the expression of each. A
    /// `WHERE` is a feature that is not supported.
    pub fn analyze_update(&self, parts: &UpdateParts) -> (analysed: Result<
        QueryAnalysis,
        AnalysisError,
    >)
        ensures
            self.update_analysed(*parts, analysed),
    {
        if parts.filtered {
            return Err(AnalysisError::FeatureNotSupported("WHERE".to_owned()));
        }
        let table_id = match self.resolve_table(&parts.name) {
            Ok(table_id) => table_id,
            Err(error) => {
                return Err(error);
            },
        };
        let numbered = self.metadata.table_columns(table_id.1);
        let mut assignments: Vec<(u64, SqlType, ScalarOp)> = Vec::new();
        let mut i: usize = 0;
        assert(parts.assignments@.take(0) =~= Seq::empty());
        while i < parts.assignments.len()
            invariant
                i <= parts.assignments.len(),
                numbered@ == self.definitions().table_columns(table_id.1),
                self.table_resolved(
                    texts(parts.name@),
                    Ok::<FullTableId, AnalysisError>(table_id),
                ),
                !parts.filtered,
                resolved_assignments(numbered@, parts.assignments@.take(i as int)) == Ok::<
                    Seq<(u64, SqlType, ScalarOp)>,
                    SelectionProblem,
                >(assignments@),
            decreases parts.assignments.len() - i,
        {
            proof {
                assert(parts.assignments@.take(i + 1).drop_last() =~= parts.assignments@.take(
                    i as int,
                ));
                assert(parts.assignments@.take(i + 1).last() == parts.assignments@[i as int]);
            }
            match resolve_assignment(&numbered, &parts.assignments[i]) {
                Ok(assignment) => {
                    assignments.push(assignment);
                },
                Err(problem) => {
                    proof {
                        lemma_missing_column_stays(numbered@, parts.assignments@, i + 1);
                    }
                    return match problem {
                        SelectionProblem::NotSupported => Err(
                            AnalysisError::FeatureNotSupported("expression".to_owned()),
                        ),
                        SelectionProblem::ColumnDoesNotExist(name) => Err(
                            AnalysisError::ColumnDoesNotExist(name),
                        ),
                    };
                },
            }
            i = i + 1;
        }
        assert(parts.assignments@.take(i as int) =~= parts.assignments@);
        Ok(QueryAnalysis::Write(Write::Update(UpdateQuery { table_id, assignments })))
    }

    /// Whether a select is one of columns of one table and nothing else.
    pub open spec fn plain_select(parts: SelectParts) -> bool {
        &&& !parts.clauses@.contains(true)
        &&& parts.from@.len() == 1
        &&& relation_of(parts.from@[0]).name is Some
        &&& !relation_of(parts.from@[0]).extras@.contains(true)
    }

    /// What analysing a `SELECT` gives.
    pub open spec fn select_analysed(
        &self,
        parts: SelectParts,
        analysed: Result<QueryAnalysis, AnalysisError>,
    ) -> bool {
        if !Self::plain_select(parts) {
            analysed matches Err(AnalysisError::FeatureNotSupported(feature)) && feature@
                == "query"@
        } else {
            let name = texts(relation_of(parts.from@[0]).name.unwrap()@);
            let items = projections(parts.projection@);
            match analysed {
                Ok(QueryAnalysis::Read(query)) => {
                    &&& self.table_resolved(
                        name,
                        Ok::<FullTableId, AnalysisError>(query.table_id),
                    )
                    &&& projected(self.definitions().table_columns(query.table_id.1), items)
                        == Ok::<Seq<u64>, ProjectionProblem>(query.selected_columns@)
                },
                Ok(_) => false,
                Err(error) => {
                    ||| self.table_resolved(name, Err::<FullTableId, AnalysisError>(error))
                    ||| exists|table_id: FullTableId|
                        {
                            &&& #[trigger] self.table_resolved(
                                name,
                                Ok::<FullTableId, AnalysisError>(table_id),
                            )
                            &&& match projected(
                                self.definitions().table_columns(table_id.1),
                                items,
                            ) {
                                Ok(_) => false,
                                Err(ProjectionProblem::ColumnDoesNotExist(column)) => error
                                    == AnalysisError::ColumnDoesNotExist(column),
                                Err(ProjectionProblem::NotSupported) => error matches AnalysisError::FeatureNotSupported(
                                    feature,
                                ) && feature@ == "expression"@,
                            }
                        }
                },
            }
        }
    }

    /// Analyses a `SELECT` of columns of one table: resolves the table and
    /// the columns. Any further clause, more than one table, and an
    /// expression that is no column are features that are not supported.
    pub fn analyze_select(&self, parts: &SelectParts) -> (analysed: Result<
        QueryAnalysis,
        AnalysisError,
    >)
        ensures
            self.select_analysed(*parts, analysed),
    {
        if any_set(&parts.clauses) || parts.from.len() != 1 {
            return Err(AnalysisError::FeatureNotSupported("query".to_owned()));
        }
        let relation = read_relation(&parts.from[0]);
        if any_set(&relation.extras) {
            return Err(AnalysisError::FeatureNotSupported("query".to_owned()));
        }
        let name = match relation.name {
            Some(name) => name,
            None => {
                return Err(AnalysisError::FeatureNotSupported("query".to_owned()));
            },
        };
        let table_id = match self.resolve_table(&name) {
            Ok(table_id) => table_id,
            Err(error) => {
                return Err(error);
            },
        };
        let numbered = self.metadata.table_columns(table_id.1);
        match project(&numbered, &parts.projection) {
            Ok(selected_columns) => Ok(QueryAnalysis::Read(SelectQuery { table_id, selected_columns })),
            Err(ProjectionProblem::ColumnDoesNotExist(column)) => Err(
                AnalysisError::ColumnDoesNotExist(column),
            ),
            Err(ProjectionProblem::NotSupported) => Err(
                AnalysisError::FeatureNotSupported("expression".to_owned()),
            ),
        }
    }

    /// What analysing a statement gives: what the analysis of its kind
    /// gives, and a feature that is not supported for any other statement.
    pub open spec fn analysed_as(
        &self,
        statement: Statement,
        analysed: Result<QueryAnalysis, AnalysisError>,
    ) -> bool {
        if let Some(kind) = session_statement_of(statement) {
            analysed == Ok::<QueryAnalysis, AnalysisError>(QueryAnalysis::Session(kind))
        } else if let Some(name) = create_schema_of(statement) {
            self.create_schema_analysed(texts(name@), analysed)
        } else if let Some(parts) = drop_of(statement) {
            match parts.kind {
                DropKind::Schema => self.drop_schemas_analysed(parts, analysed),
                DropKind::Table => self.drop_tables_analysed(parts, analysed),
                DropKind::Other => analysed matches Err(
                    AnalysisError::FeatureNotSupported(feature),
                ) && feature@ == "statement"@,
            }
        } else if let Some(parts) = create_table_of(statement) {
            self.create_table_analysed(parts, analysed)
        } else if let Some(parts) = delete_of(statement) {
            self.delete_analysed(parts, analysed)
        } else if let Some(parts) = insert_of(statement) {
            self.insert_analysed(parts, analysed)
        } else if let Some(parts) = update_of(statement) {
            self.update_analysed(parts, analysed)
        } else if let Some(parts) = select_of(statement) {
            self.select_analysed(parts, analysed)
        } else {
            analysed matches Err(AnalysisError::FeatureNotSupported(feature)) && feature@
                == "statement"@
        }
    }

    /// Analyses a statement: a statement of the session as what it is; a
    /// `CREATE SCHEMA`, a `DROP SCHEMA`, a `CREATE TABLE`, a `DROP TABLE`,
    /// a `DELETE`, an `INSERT` of rows of values, an `UPDATE` or a `SELECT`
    /// as the function for each says; and any other statement as a feature
    /// that is not supported.
    pub fn analyze(&self, statement: Statement) -> (analysed: Result<QueryAnalysis, AnalysisError>)
        ensures
            self.analysed_as(statement, analysed),
    {
        if let Some(kind) = read_session_statement(&statement) {
            return Ok(QueryAnalysis::Session(kind));
        }
        if let Some(name) = read_create_schema(&statement) {
            return self.analyze_create_schema(&name);
        }
        if let Some(parts) = read_drop(&statement) {
            return match parts.kind {
                DropKind::Schema => self.analyze_drop_schemas(&parts),
                DropKind::Table => self.analyze_drop_tables(&parts),
                DropKind::Other => Err(
                    AnalysisError::FeatureNotSupported("statement".to_owned()),
                ),
            };
        }
        if let Some(parts) = read_create_table(&statement) {
            return self.analyze_create_table(&parts);
        }
        if let Some(parts) = read_delete(&statement) {
            return self.analyze_delete(&parts);
        }
        if let Some(parts) = read_insert(&statement) {
            return self.analyze_insert(&parts);
        }
        if let Some(parts) = read_update(&statement) {
            return self.analyze_update(&parts);
        }
        if let Some(parts) = read_select(&statement) {
            return self.analyze_select(&parts);
        }
        Err(AnalysisError::FeatureNotSupported("statement".to_owned()))
    }
}

} // verus!
