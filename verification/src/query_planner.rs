//! From what a statement asks for to what is to be executed.

use crate::analyzer::{
    rows_view, AnalysisError, ColumnInfo, CreateSchemaQuery, CreateTableQuery, InsertQuery,
    QueryAnalysis, SchemaChange, UpdateQuery, Write,
};
use crate::binary::{datums_view, Datum, DatumView};
use crate::coercion::{coerce, coerced, CoercionError};
use crate::sql_types::SqlType;
use crate::statement::Literal;
use crate::text::{push_decimal, spec_decimal};
use crate::metadata::{
    selected, ColumnDefinition, DataDefinition, Definitions, FullTableId, DEFAULT_CATALOG,
};
use crate::protocol::PlanError;
use crate::query_executor::{Plan, SelectInput, TableDeletes};
use vstd::prelude::*;
use vstd::string::StringExecFns;

verus! {

/// The columns of a table that is to be created, as definitions.
pub open spec fn column_definitions(columns: Seq<ColumnInfo>) -> Seq<ColumnDefinition> {
    columns.map_values(
        |column: ColumnInfo| ColumnDefinition { name: column.name, sql_type: column.sql_type },
    )
}

/// The planning error that stands for an error of the analysis: the error
/// of the same kind, with the same text.
pub open spec fn plan_error_of(error: AnalysisError) -> PlanError {
    match error {
        AnalysisError::SchemaDoesNotExist(schema) => PlanError::SchemaDoesNotExist(schema),
        AnalysisError::TableDoesNotExist(table) => PlanError::TableDoesNotExist(table),
        AnalysisError::TableNamingError(message) => PlanError::TableNamingError(message),
        AnalysisError::TypeIsNotSupported(raw_type) => PlanError::TypeIsNotSupported(raw_type),
        AnalysisError::DuplicateColumn(column) => PlanError::DuplicateColumn(column),
        AnalysisError::ColumnDoesNotExist(column) => PlanError::ColumnDoesNotExist(column),
        AnalysisError::SyntaxError(message) => PlanError::SyntaxError(message),
        AnalysisError::FeatureNotSupported(feature) => PlanError::FeatureNotSupported(feature),
    }
}

/// Why rows that are written cannot be inserted.
#[derive(Debug, Copy, Clone, PartialEq, Eq)]
pub enum InsertProblem {
    /// A row has not as many values as the table has columns.
    ValueCount { expected: usize, actual: usize },
    /// A value is no value of its column.
    Value { error: CoercionError, sql_type: SqlType },
}

/// The datums of the values of a row that has no more values than there
/// are types, or why the first value that is none is none.
pub open spec fn coerced_values(row: Seq<Literal>, types: Seq<SqlType>) -> Result<
    Seq<DatumView>,
    InsertProblem,
>
    decreases row.len(),
{
    if row.len() == 0 {
        Ok(Seq::empty())
    } else {
        match coerced_values(row.drop_last(), types) {
            Err(problem) => Err(problem),
            Ok(front) => match coerced(row.last(), types[row.len() - 1]) {
                Ok(datum) => Ok(front.push(datum)),
                Err(error) => Err(InsertProblem::Value { error, sql_type: types[row.len() - 1] }),
            },
        }
    }
}

/// The datums of a row, which must have one value for each type.
pub open spec fn coerced_row(row: Seq<Literal>, types: Seq<SqlType>) -> Result<
    Seq<DatumView>,
    InsertProblem,
> {
    if row.len() != types.len() {
        Err(InsertProblem::ValueCount { expected: types.len() as usize, actual: row.len() as usize })
    } else {
        coerced_values(row, types)
    }
}

/// The datums of rows, or the problem of the first row that has one.
pub open spec fn coerced_rows(rows: Seq<Seq<Literal>>, types: Seq<SqlType>) -> Result<
    Seq<Seq<DatumView>>,
    InsertProblem,
>
    decreases rows.len(),
{
    if rows.len() == 0 {
        Ok(Seq::empty())
    } else {
        match coerced_rows(rows.drop_last(), types) {
            Err(problem) => Err(problem),
            Ok(front) => match coerced_row(rows.last(), types) {
                Ok(row) => Ok(front.push(row)),
                Err(problem) => Err(problem),
            },
        }
    }
}

/// The datums of rows as values.
pub open spec fn datum_rows_view(rows: Seq<Vec<Datum>>) -> Seq<Seq<DatumView>> {
    rows.map_values(|row: Vec<Datum>| datums_view(row@))
}

/// Whether the planning error reports the problem: a syntax error that
/// says how many values were expected and how many there are, that the
/// input is invalid for the type, that the number is out of the range of
/// the type or that the value is too long for the type; or a feature that
/// is not supported, with the type.
pub open spec fn problem_reported(problem: InsertProblem, error: PlanError) -> bool {
    match problem {
        InsertProblem::ValueCount { expected, actual } => error matches PlanError::SyntaxError(
            message,
        ) && message@ == "expected "@ + spec_decimal(expected as nat) + " values, but got "@
            + spec_decimal(actual as nat),
        InsertProblem::Value { error: CoercionError::InvalidInput, sql_type } => error matches PlanError::SyntaxError(
            message,
        ) && message@ == "invalid input syntax for type "@ + sql_type.text(),
        InsertProblem::Value { error: CoercionError::OutOfRange, sql_type } => error matches PlanError::SyntaxError(
            message,
        ) && message@ == sql_type.text() + " out of range"@,
        InsertProblem::Value { error: CoercionError::TooLong, sql_type } => error matches PlanError::SyntaxError(
            message,
        ) && message@ == "value too long for type "@ + sql_type.text(),
        InsertProblem::Value { error: CoercionError::NotSupported, sql_type } => error matches PlanError::FeatureNotSupported(
            feature,
        ) && feature@ == sql_type.text(),
    }
}

/// The datums of the values of a row.
pub fn coerce_row(row: &Vec<Literal>, sql_types: &Vec<SqlType>) -> (datums: Result<
    Vec<Datum>,
    InsertProblem,
>)
    ensures
        match datums {
            Ok(datums) => coerced_row(row@, sql_types@) == Ok::<Seq<DatumView>, InsertProblem>(
                datums_view(datums@),
            ),
            Err(problem) => coerced_row(row@, sql_types@) == Err::<Seq<DatumView>, InsertProblem>(
                problem,
            ),
        },
{
    if row.len() != sql_types.len() {
        return Err(InsertProblem::ValueCount { expected: sql_types.len(), actual: row.len() });
    }
    let mut datums: Vec<Datum> = Vec::new();
    let mut i: usize = 0;
    assert(row@.take(0) =~= Seq::empty());
    assert(datums_view(datums@) =~= Seq::empty());
    while i < row.len()
        invariant
            i <= row.len() == sql_types.len(),
            coerced_values(row@.take(i as int), sql_types@) == Ok::<Seq<DatumView>, InsertProblem>(
                datums_view(datums@),
            ),
        decreases row.len() - i,
    {
        proof {
            assert(row@.take(i + 1).drop_last() =~= row@.take(i as int));
            assert(row@.take(i + 1).last() == row@[i as int]);
        }
        let ghost before = datums_view(datums@);
        match coerce(&row[i], &sql_types[i]) {
            Ok(datum) => {
                datums.push(datum);
                assert(datums_view(datums@) =~= before.push(datum@));
            },
            Err(error) => {
                proof {
                    lemma_problem_stays(row@, sql_types@, i + 1);
                }
                return Err(InsertProblem::Value { error, sql_type: sql_types[i] });
            },
        }
        i = i + 1;
    }
    assert(row@.take(i as int) =~= row@);
    Ok(datums)
}

/// The problem of the first values of a row is the problem of the row.
pub proof fn lemma_problem_stays(row: Seq<Literal>, types: Seq<SqlType>, n: int)
    requires
        0 <= n <= row.len(),
        coerced_values(row.take(n), types) is Err,
    ensures
        coerced_values(row, types) == coerced_values(row.take(n), types),
    decreases row.len() - n,
{
    if n < row.len() {
        assert(row.take(n + 1).drop_last() =~= row.take(n));
        lemma_problem_stays(row, types, n + 1);
    } else {
        assert(row.take(n) =~= row);
    }
}

/// The problem of the first rows is the problem of all rows.
pub proof fn lemma_row_problem_stays(rows: Seq<Seq<Literal>>, types: Seq<SqlType>, n: int)
    requires
        0 <= n <= rows.len(),
        coerced_rows(rows.take(n), types) is Err,
    ensures
        coerced_rows(rows, types) == coerced_rows(rows.take(n), types),
    decreases rows.len() - n,
{
    if n < rows.len() {
        assert(rows.take(n + 1).drop_last() =~= rows.take(n));
        lemma_row_problem_stays(rows, types, n + 1);
    } else {
        assert(rows.take(n) =~= rows);
    }
}

/// The datums of rows.
pub fn coerce_rows(rows: &Vec<Vec<Literal>>, sql_types: &Vec<SqlType>) -> (datums: Result<
    Vec<Vec<Datum>>,
    InsertProblem,
>)
    ensures
        match datums {
            Ok(datums) => coerced_rows(rows_view(rows@), sql_types@) == Ok::<
                Seq<Seq<DatumView>>,
                InsertProblem,
            >(datum_rows_view(datums@)),
            Err(problem) => coerced_rows(rows_view(rows@), sql_types@) == Err::<
                Seq<Seq<DatumView>>,
                InsertProblem,
            >(problem),
        },
{
    let ghost all = rows_view(rows@);
    let mut datums: Vec<Vec<Datum>> = Vec::new();
    let mut i: usize = 0;
    assert(all.take(0) =~= Seq::empty());
    assert(datum_rows_view(datums@) =~= Seq::empty());
    while i < rows.len()
        invariant
            i <= rows.len(),
            all == rows_view(rows@),
            coerced_rows(all.take(i as int), sql_types@) == Ok::<
                Seq<Seq<DatumView>>,
                InsertProblem,
            >(datum_rows_view(datums@)),
        decreases rows.len() - i,
    {
        proof {
            assert(all.take(i + 1).drop_last() =~= all.take(i as int));
            assert(all.take(i + 1).last() == rows@[i as int]@);
        }
        let ghost before = datum_rows_view(datums@);
        match coerce_row(&rows[i], sql_types) {
            Ok(row) => {
                datums.push(row);
                assert(datum_rows_view(datums@) =~= before.push(datums_view(row@)));
            },
            Err(problem) => {
                proof {
                    lemma_row_problem_stays(all, sql_types@, i + 1);
                }
                return Err(problem);
            },
        }
        i = i + 1;
    }
    assert(all.take(i as int) =~= all);
    Ok(datums)
}

/// The planning error that reports a problem of an insert.
pub fn report(problem: InsertProblem) -> (error: PlanError)
    ensures
        problem_reported(problem, error),
{
    match problem {
        InsertProblem::ValueCount { expected, actual } => {
            let mut message = "expected ".to_owned();
            push_decimal(&mut message, expected as u64);
            message.append(" values, but got ");
            push_decimal(&mut message, actual as u64);
            PlanError::SyntaxError(message)
        },
        InsertProblem::Value { error, sql_type } => {
            match error {
                CoercionError::InvalidInput => {
                    let mut message = "invalid input syntax for type ".to_owned();
                    message.append(sql_type.to_string().as_str());
                    PlanError::SyntaxError(message)
                },
                CoercionError::OutOfRange => {
                    let mut message = sql_type.to_string();
                    message.append(" out of range");
                    PlanError::SyntaxError(message)
                },
                CoercionError::TooLong => {
                    let mut message = "value too long for type ".to_owned();
                    message.append(sql_type.to_string().as_str());
                    PlanError::SyntaxError(message)
                },
                CoercionError::NotSupported => PlanError::FeatureNotSupported(sql_type.to_string()),
            }
        },
    }
}

/// Lowers analysed statements into plans.
#[derive(Debug)]
pub struct QueryPlanner<'a> {
    metadata: &'a DataDefinition,
}

impl<'a> QueryPlanner<'a> {
    /// The definitions that plans are made against.
    pub closed spec fn definitions(&self) -> Definitions {
        self.metadata@
    }

    pub fn new(metadata: &'a DataDefinition) -> (planner: QueryPlanner<'a>)
        ensures
            planner.definitions() == metadata@,
    {
        QueryPlanner { metadata }
    }

    /// The definitions of the columns of a table at the ordinals, in the
    /// order of the ordinals.
    pub fn column_defs(&self, table_id: &FullTableId, ordinals: &Vec<u64>) -> (columns: Vec<
        ColumnDefinition,
    >)
        ensures
            columns@ == selected(self.definitions().table_columns(table_id.1), ordinals@).map_values(
                |column: (u64, ColumnDefinition)| column.1,
            ),
    {
        self.metadata.column_defs(table_id, ordinals)
    }

    /// The planning error for an error of the analysis.
    pub fn error(error: AnalysisError) -> (planned: PlanError)
        ensures
            planned == plan_error_of(error),
    {
        match error {
            AnalysisError::SchemaDoesNotExist(schema) => PlanError::SchemaDoesNotExist(schema),
            AnalysisError::TableDoesNotExist(table) => PlanError::TableDoesNotExist(table),
            AnalysisError::TableNamingError(message) => PlanError::TableNamingError(message),
            AnalysisError::TypeIsNotSupported(raw_type) => PlanError::TypeIsNotSupported(raw_type),
            AnalysisError::DuplicateColumn(column) => PlanError::DuplicateColumn(column),
            AnalysisError::ColumnDoesNotExist(column) => PlanError::ColumnDoesNotExist(column),
            AnalysisError::SyntaxError(message) => PlanError::SyntaxError(message),
            AnalysisError::FeatureNotSupported(feature) => PlanError::FeatureNotSupported(feature),
        }
    }

    /// What planning the creation of a table gives.
    pub open spec fn create_table_planned(
        &self,
        query: CreateTableQuery,
        planned: Result<Plan, Vec<PlanError>>,
    ) -> bool {
        let found = self.definitions().table_found(
            DEFAULT_CATALOG@,
            query.table_info.schema_name@,
            query.table_info.table_name@,
        );
        let present = found is Some && found.unwrap().1 is Some && found.unwrap().1.unwrap().1
            is Some;
        match planned {
            Ok(Plan::CreateTable { schema_id, table_name, columns, if_not_exists }) => {
                &&& (!present || query.if_not_exists)
                &&& schema_id == query.table_info.schema_id
                &&& table_name == query.table_info.table_name
                &&& columns@ == column_definitions(query.column_defs@)
                &&& if_not_exists == query.if_not_exists
            },
            Ok(_) => false,
            Err(errors) => {
                &&& present && !query.if_not_exists
                &&& errors@.len() == 1
                &&& errors@[0] matches PlanError::TableAlreadyExists(name)
                &&& name@ == query.table_info.schema_name@ + "."@ + query.table_info.table_name@
            },
        }
    }

    /// Plans the creation of a table. A table that the schema has already
    /// is an error unless the statement asks to create it only if it does
    /// not exist; the error names the table by schema and table.
    pub fn plan_create_table(&self, query: CreateTableQuery) -> (planned: Result<
        Plan,
        Vec<PlanError>,
    >)
        ensures
            self.create_table_planned(query, planned),
    {
        let found = self.metadata.table_exists(
            DEFAULT_CATALOG,
            query.table_info.schema_name.as_str(),
            query.table_info.table_name.as_str(),
        );
        let present = match found {
            Some((_, Some((_, Some(_))))) => true,
            _ => false,
        };
        if present && !query.if_not_exists {
            let mut name = query.table_info.schema_name.clone();
            name.append(".");
            name.append(query.table_info.table_name.as_str());
            let mut errors: Vec<PlanError> = Vec::new();
            errors.push(PlanError::TableAlreadyExists(name));
            return Err(errors);
        }
        let mut columns: Vec<ColumnDefinition> = Vec::new();
        let mut i: usize = 0;
        while i < query.column_defs.len()
            invariant
                i <= query.column_defs.len(),
                columns@ == column_definitions(query.column_defs@).take(i as int),
            decreases query.column_defs.len() - i,
        {
            columns.push(
                ColumnDefinition {
                    name: query.column_defs[i].name.clone(),
                    sql_type: query.column_defs[i].sql_type,
                },
            );
            i = i + 1;
            assert(columns@ =~= column_definitions(query.column_defs@).take(i as int));
        }
        assert(column_definitions(query.column_defs@).take(i as int) =~= column_definitions(
            query.column_defs@,
        ));
        Ok(
            Plan::CreateTable {
                schema_id: query.table_info.schema_id,
                table_name: query.table_info.table_name,
                columns,
                if_not_exists: query.if_not_exists,
            },
        )
    }

    /// Whether the default catalog has a schema of the name.
    pub open spec fn has_schema(&self, schema_name: Seq<char>) -> bool {
        let found = self.definitions().schema_found(DEFAULT_CATALOG@, schema_name);
        found is Some && found.unwrap().1 is Some
    }

    /// What planning the creation of a schema gives.
    pub open spec fn create_schema_planned(
        &self,
        query: CreateSchemaQuery,
        planned: Result<Plan, Vec<PlanError>>,
    ) -> bool {
        let present = self.has_schema(query.schema_name@);
        match planned {
            Ok(Plan::CreateSchema { schema_name, if_not_exists }) => {
                &&& (!present || query.if_not_exists)
                &&& schema_name == query.schema_name
                &&& if_not_exists == query.if_not_exists
            },
            Ok(_) => false,
            Err(errors) => {
                &&& present && !query.if_not_exists
                &&& errors@ == seq![PlanError::SchemaAlreadyExists(query.schema_name)]
            },
        }
    }

    /// Plans the creation of a schema. A schema that exists already is an
    /// error unless the statement asks to create it only if it does not
    /// exist.
    pub fn plan_create_schema(&self, query: CreateSchemaQuery) -> (planned: Result<
        Plan,
        Vec<PlanError>,
    >)
        ensures
            self.create_schema_planned(query, planned),
    {
        let present = match self.metadata.schema_exists(DEFAULT_CATALOG, query.schema_name.as_str()) {
            Some((_, Some(_))) => true,
            _ => false,
        };
        if present && !query.if_not_exists {
            let mut errors: Vec<PlanError> = Vec::new();
            errors.push(PlanError::SchemaAlreadyExists(query.schema_name));
            assert(errors@ =~= seq![PlanError::SchemaAlreadyExists(query.schema_name)]);
            return Err(errors);
        }
        Ok(Plan::CreateSchema { schema_name: query.schema_name, if_not_exists: query.if_not_exists })
    }

    /// What planning an insert gives.
    pub open spec fn insert_planned(query: InsertQuery, planned: Result<Plan, Vec<PlanError>>) -> bool {
        let rows = coerced_rows(rows_view(query.rows@), query.sql_types@);
        match planned {
            Ok(Plan::Insert { table_id, rows: datums }) => {
                &&& table_id == query.table_id
                &&& rows == Ok::<Seq<Seq<DatumView>>, InsertProblem>(datum_rows_view(datums@))
            },
            Ok(_) => false,
            Err(errors) => {
                &&& rows matches Err(problem)
                &&& errors@.len() == 1
                &&& problem_reported(problem, errors@[0])
            },
        }
    }

    /// Plans an insert: every row must have one value for each column of
    /// the table, and every value must be a value of its column. The
    /// first problem is reported.
    pub fn plan_insert(query: InsertQuery) -> (planned: Result<Plan, Vec<PlanError>>)
        ensures
            Self::insert_planned(query, planned),
    {
        match coerce_rows(&query.rows, &query.sql_types) {
            Ok(rows) => Ok(Plan::Insert { table_id: query.table_id, rows }),
            Err(problem) => {
                let mut errors: Vec<PlanError> = Vec::new();
                errors.push(report(problem));
                Err(errors)
            },
        }
    }

    /// What planning an update gives: the update of the table with the
    /// assignments as they were analysed.
    pub open spec fn update_planned(query: UpdateQuery, planned: Result<Plan, Vec<PlanError>>) -> bool {
        planned == Ok::<Plan, Vec<PlanError>>(
            Plan::Update { table_id: query.table_id, assignments: query.assignments },
        )
    }

    /// Plans an update. The expressions are evaluated for each row when
    /// the plan is executed.
    pub fn plan_update(query: UpdateQuery) -> (planned: Result<Plan, Vec<PlanError>>)
        ensures
            Self::update_planned(query, planned),
    {
        Ok(Plan::Update { table_id: query.table_id, assignments: query.assignments })
    }

    /// What planning gives for what a statement asks for.
    pub open spec fn planned_as(
        &self,
        analysis: QueryAnalysis,
        planned: Result<Plan, Vec<PlanError>>,
    ) -> bool {
        match analysis {
            QueryAnalysis::DataDefinition(SchemaChange::CreateSchema(query)) => self.create_schema_planned(
                query,
                planned,
            ),
            QueryAnalysis::DataDefinition(SchemaChange::DropSchemas(query)) => planned == Ok::<
                Plan,
                Vec<PlanError>,
            >(Plan::DropSchemas { schema_names: query.schema_names, cascade: query.cascade }),
            QueryAnalysis::DataDefinition(SchemaChange::CreateTable(query)) => self.create_table_planned(
                query,
                planned,
            ),
            QueryAnalysis::DataDefinition(SchemaChange::DropTables(query)) => planned == Ok::<
                Plan,
                Vec<PlanError>,
            >(Plan::DropTables { table_ids: query.table_ids, cascade: query.cascade }),
            QueryAnalysis::Write(Write::Delete { table_id, predicate }) => planned == Ok::<
                Plan,
                Vec<PlanError>,
            >(Plan::Delete(TableDeletes { table_id, predicate })),
            QueryAnalysis::Write(Write::Insert(query)) => Self::insert_planned(query, planned),
            QueryAnalysis::Write(Write::Update(query)) => Self::update_planned(query, planned),
            QueryAnalysis::Read(query) => planned == Ok::<Plan, Vec<PlanError>>(
                Plan::Select(
                    SelectInput {
                        table_id: query.table_id,
                        selected_columns: query.selected_columns,
                    },
                ),
            ),
            QueryAnalysis::Session(statement) => planned == Ok::<Plan, Vec<PlanError>>(
                Plan::NotProcessed(statement),
            ),
        }
    }

    /// Plans what a statement asks for: the creation of a schema and of a
    /// table, an insert and an update as the function for each says; the
    /// drop of schemas and of tables as the drop of those that the
    /// analysis found; the delete of rows of a table as the delete for
    /// its handle with the expression that chooses the rows; a select as
    /// the select of its columns; and a statement of the session as one
    /// that is not processed.
    pub fn plan(&self, analysis: QueryAnalysis) -> (planned: Result<Plan, Vec<PlanError>>)
        ensures
            self.planned_as(analysis, planned),
    {
        match analysis {
            QueryAnalysis::DataDefinition(SchemaChange::CreateSchema(query)) => self.plan_create_schema(
                query,
            ),
            QueryAnalysis::DataDefinition(SchemaChange::DropSchemas(query)) => Ok(
                Plan::DropSchemas { schema_names: query.schema_names, cascade: query.cascade },
            ),
            QueryAnalysis::DataDefinition(SchemaChange::CreateTable(query)) => self.plan_create_table(
                query,
            ),
            QueryAnalysis::DataDefinition(SchemaChange::DropTables(query)) => Ok(
                Plan::DropTables { table_ids: query.table_ids, cascade: query.cascade },
            ),
            QueryAnalysis::Write(Write::Delete { table_id, predicate }) => Ok(
                Plan::Delete(TableDeletes { table_id, predicate }),
            ),
            QueryAnalysis::Write(Write::Insert(query)) => Self::plan_insert(query),
            QueryAnalysis::Write(Write::Update(query)) => Self::plan_update(query),
            QueryAnalysis::Read(query) => Ok(
                Plan::Select(
                    SelectInput {
                        table_id: query.table_id,
                        selected_columns: query.selected_columns,
                    },
                ),
            ),
            QueryAnalysis::Session(statement) => Ok(Plan::NotProcessed(statement)),
        }
    }
}

} // verus!
