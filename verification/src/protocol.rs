//! What a session receives and what it answers: commands, events and errors
//! as structured values. Their encoding on the wire is not decided here.

use crate::sql_types::PgType;
use vstd::prelude::*;

verus! {

/// The format in which a parameter or a result column travels.
#[derive(Debug, Copy, Clone, PartialEq, Eq, Structural)]
pub enum PostgreSqlFormat {
    Text,
    Binary,
}

/// A decoded parameter. A floating value is held by its bits.
#[derive(Debug, Clone, PartialEq, Eq)]
pub enum PostgreSqlValue {
    Null,
    True,
    False,
    Int16(i16),
    Int32(i32),
    Int64(i64),
    Float32(u32),
    Float64(u64),
    String(String),
}

/// The name and the wire type of each column of a result.
pub type Description = Vec<(String, PgType)>;

/// One step of an answer.
#[derive(Debug, Clone, PartialEq, Eq)]
pub enum QueryEvent {
    SchemaCreated,
    SchemaDropped,
    TableCreated,
    TableDropped,
    VariableSet,
    RecordsInserted(usize),
    RowDescription(Description),
    DataRow(Vec<String>),
    RecordsSelected(usize),
    RecordsUpdated(usize),
    RecordsDeleted(usize),
    StatementParameters(Vec<PgType>),
    StatementDescription(Description),
    QueryComplete,
    ParseComplete,
    BindComplete,
}

/// What is reported to the client when a command fails.
#[derive(Debug, Clone, PartialEq, Eq)]
pub enum QueryError {
    SchemaDoesNotExist(String),
    SchemaAlreadyExists(String),
    TableDoesNotExist(String),
    TableAlreadyExists(String),
    ColumnDoesNotExist(String),
    DuplicateColumn(String),
    TypeIsNotSupported(String),
    UndefinedFunction { operator: String, left_type: String, right_type: String },
    SyntaxError(String),
    FeatureNotSupported(String),
    ProtocolViolation(String),
    InvalidParameterValue(String),
    PreparedStatementDoesNotExist(String),
    PortalDoesNotExist(String),
}

/// An event, or the error that took its place.
pub type QueryResult = Result<QueryEvent, QueryError>;

/// Why a statement could not be planned.
#[derive(Debug, Clone, PartialEq, Eq)]
pub enum PlanError {
    SchemaAlreadyExists(String),
    SchemaDoesNotExist(String),
    TableAlreadyExists(String),
    TableDoesNotExist(String),
    DuplicateColumn(String),
    ColumnDoesNotExist(String),
    TableNamingError(String),
    TypeIsNotSupported(String),
    SyntaxError(String),
    FeatureNotSupported(String),
}

/// What a client asks of its session.
#[derive(Debug, Clone, PartialEq, Eq)]
pub enum Command {
    Bind {
        portal_name: String,
        statement_name: String,
        param_formats: Vec<PostgreSqlFormat>,
        raw_params: Vec<Option<Vec<u8>>>,
        result_formats: Vec<PostgreSqlFormat>,
    },
    Continue,
    DescribeStatement { name: String },
    Execute { portal_name: String, max_rows: i32 },
    Flush,
    Parse { statement_name: String, sql: String, param_types: Vec<PgType> },
    Query { sql: String },
    Terminate,
}

impl QueryError {
    pub fn schema_does_not_exist(schema_name: String) -> (error: QueryError)
        ensures
            error == QueryError::SchemaDoesNotExist(schema_name),
    {
        QueryError::SchemaDoesNotExist(schema_name)
    }

    pub fn schema_already_exists(schema_name: String) -> (error: QueryError)
        ensures
            error == QueryError::SchemaAlreadyExists(schema_name),
    {
        QueryError::SchemaAlreadyExists(schema_name)
    }

    pub fn table_does_not_exist(table_name: String) -> (error: QueryError)
        ensures
            error == QueryError::TableDoesNotExist(table_name),
    {
        QueryError::TableDoesNotExist(table_name)
    }

    pub fn table_already_exists(table_name: String) -> (error: QueryError)
        ensures
            error == QueryError::TableAlreadyExists(table_name),
    {
        QueryError::TableAlreadyExists(table_name)
    }

    pub fn column_does_not_exist(column_name: String) -> (error: QueryError)
        ensures
            error == QueryError::ColumnDoesNotExist(column_name),
    {
        QueryError::ColumnDoesNotExist(column_name)
    }

    pub fn duplicate_column(column_name: String) -> (error: QueryError)
        ensures
            error == QueryError::DuplicateColumn(column_name),
    {
        QueryError::DuplicateColumn(column_name)
    }

    pub fn type_is_not_supported(raw_type: String) -> (error: QueryError)
        ensures
            error == QueryError::TypeIsNotSupported(raw_type),
    {
        QueryError::TypeIsNotSupported(raw_type)
    }

    pub fn undefined_function(operator: String, left_type: String, right_type: String) -> (error:
        QueryError)
        ensures
            error == (QueryError::UndefinedFunction { operator, left_type, right_type }),
    {
        QueryError::UndefinedFunction { operator, left_type, right_type }
    }

    pub fn syntax_error(message: String) -> (error: QueryError)
        ensures
            error == QueryError::SyntaxError(message),
    {
        QueryError::SyntaxError(message)
    }

    pub fn feature_not_supported(feature: String) -> (error: QueryError)
        ensures
            error == QueryError::FeatureNotSupported(feature),
    {
        QueryError::FeatureNotSupported(feature)
    }

    pub fn protocol_violation(message: String) -> (error: QueryError)
        ensures
            error == QueryError::ProtocolViolation(message),
    {
        QueryError::ProtocolViolation(message)
    }

    pub fn invalid_parameter_value(message: String) -> (error: QueryError)
        ensures
            error == QueryError::InvalidParameterValue(message),
    {
        QueryError::InvalidParameterValue(message)
    }

    pub fn prepared_statement_does_not_exist(statement_name: String) -> (error: QueryError)
        ensures
            error == QueryError::PreparedStatementDoesNotExist(statement_name),
    {
        QueryError::PreparedStatementDoesNotExist(statement_name)
    }

    pub fn portal_does_not_exist(portal_name: String) -> (error: QueryError)
        ensures
            error == QueryError::PortalDoesNotExist(portal_name),
    {
        QueryError::PortalDoesNotExist(portal_name)
    }

    /// The error that reports a planning error to the client.
    pub open spec fn of_plan_error(error: PlanError) -> QueryError {
        match error {
            PlanError::SchemaAlreadyExists(schema) => QueryError::SchemaAlreadyExists(schema),
            PlanError::SchemaDoesNotExist(schema) => QueryError::SchemaDoesNotExist(schema),
            PlanError::TableAlreadyExists(table) => QueryError::TableAlreadyExists(table),
            PlanError::TableDoesNotExist(table) => QueryError::TableDoesNotExist(table),
            PlanError::DuplicateColumn(column) => QueryError::DuplicateColumn(column),
            PlanError::ColumnDoesNotExist(column) => QueryError::ColumnDoesNotExist(column),
            PlanError::TableNamingError(message) => QueryError::SyntaxError(message),
            PlanError::TypeIsNotSupported(raw_type) => QueryError::TypeIsNotSupported(raw_type),
            PlanError::SyntaxError(message) => QueryError::SyntaxError(message),
            PlanError::FeatureNotSupported(feature) => QueryError::FeatureNotSupported(feature),
        }
    }

    /// Reports a planning error: the error of the same kind, with the same
    /// text; a table name that is refused is reported as a syntax error.
    pub fn from_plan_error(error: PlanError) -> (reported: QueryError)
        ensures
            reported == QueryError::of_plan_error(error),
    {
        match error {
            PlanError::SchemaAlreadyExists(schema) => QueryError::schema_already_exists(schema),
            PlanError::SchemaDoesNotExist(schema) => QueryError::schema_does_not_exist(schema),
            PlanError::TableAlreadyExists(table) => QueryError::table_already_exists(table),
            PlanError::TableDoesNotExist(table) => QueryError::table_does_not_exist(table),
            PlanError::DuplicateColumn(column) => QueryError::duplicate_column(column),
            PlanError::ColumnDoesNotExist(column) => QueryError::column_does_not_exist(column),
            PlanError::TableNamingError(message) => QueryError::syntax_error(message),
            PlanError::TypeIsNotSupported(raw_type) => QueryError::type_is_not_supported(raw_type),
            PlanError::SyntaxError(message) => QueryError::syntax_error(message),
            PlanError::FeatureNotSupported(feature) => QueryError::feature_not_supported(feature),
        }
    }
}

} // verus!
