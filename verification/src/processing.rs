//! What is done with a statement between the parser and the session: it
//! is planned, prepared or run. With these steps the session executes the
//! commands of a client on the data.

use crate::analyzer::{AnalysisError, Analyzer, Description, DescriptionError, QueryAnalysis};
use crate::data_manager::{DataManager, DataState};
use crate::metadata::{selected, ColumnDefinition, Definitions};
use crate::protocol::{Command, PlanError, PostgreSqlFormat, PostgreSqlValue, QueryResult};
use crate::query_engine::{responded, Done, Outgoing, Prepared, QueryEngine, Ran, Work};
use crate::query_executor::{executed, Plan, QueryExecutor};
use crate::query_planner::{plan_error_of, QueryPlanner};
use crate::sql_types::{PgType, SqlType};
use crate::statement::{insert_of, SessionStatement};
use sqlparser::ast::Statement;
use vstd::prelude::*;

verus! {

/// What planning a statement gives: the plan for what its analysis gives,
/// or the one error that reports the error of the analysis.
pub open spec fn statement_planned(
    analyzer: Analyzer,
    planner: QueryPlanner,
    statement: Statement,
    planned: Result<Plan, Vec<PlanError>>,
) -> bool {
    exists|analysed: Result<QueryAnalysis, AnalysisError>|
        #[trigger] analyzer.analysed_as(statement, analysed) && match analysed {
            Ok(analysis) => planner.planned_as(analysis, planned),
            Err(error) => planned matches Err(errors) && errors@ == seq![plan_error_of(error)],
        }
}

/// Analyses the statement and plans what it asks for.
pub fn plan_statement(analyzer: &Analyzer, planner: &QueryPlanner, statement: &Statement) -> (planned:
    Result<Plan, Vec<PlanError>>)
    ensures
        statement_planned(*analyzer, *planner, *statement, planned),
{
    match analyzer.analyze(statement.clone()) {
        Ok(analysis) => {
            let ghost analysed = Ok::<QueryAnalysis, AnalysisError>(analysis);
            let planned = planner.plan(analysis);
            assert(analyzer.analysed_as(*statement, analysed));
            planned
        },
        Err(error) => {
            let ghost analysed = Err::<QueryAnalysis, AnalysisError>(error);
            let mut errors: Vec<PlanError> = Vec::new();
            errors.push(QueryPlanner::error(error));
            assert(errors@ =~= seq![plan_error_of(error)]);
            assert(analyzer.analysed_as(*statement, analysed));
            Err(errors)
        },
    }
}

/// The types of the columns that a description of an insert gives.
pub open spec fn types_described(described: Result<Description, DescriptionError>) -> Result<
    Vec<SqlType>,
    DescriptionError,
> {
    match described {
        Ok(Description::Insert(insert)) => Ok(insert.sql_types),
        Err(error) => Err(error),
    }
}

/// What preparing a statement gives. An insert into a table named by a
/// schema and a table is prepared with the types of the columns of the
/// table, or with the reason why they are not known. Every other
/// statement is planned: a select is prepared with the columns that it
/// yields, an update and a statement that sets a variable as what they
/// are, and a statement with another plan is not supported; one that
/// cannot be planned is prepared as its errors.
pub open spec fn statement_prepared(
    analyzer: Analyzer,
    planner: QueryPlanner,
    statement: Statement,
    prepared: Prepared<Statement>,
) -> bool {
    if insert_of(statement) matches Some(parts) && parts.name@.len() == 2 {
        &&& prepared matches Prepared::Insert { statement: kept, sql_types }
        &&& kept == statement
        &&& exists|described: Result<Description, DescriptionError>|
            #[trigger] analyzer.insert_described(
                insert_of(statement).unwrap().name@[0]@,
                insert_of(statement).unwrap().name@[1]@,
                described,
            ) && sql_types == types_described(described)
    } else {
        exists|planned: Result<Plan, Vec<PlanError>>|
            #[trigger] statement_planned(analyzer, planner, statement, planned) && match planned {
                Ok(Plan::Select(input)) => {
                    &&& prepared matches Prepared::Select { statement: kept, columns }
                    &&& kept == statement
                    &&& columns@ == selected(
                        planner.definitions().table_columns(input.table_id.1),
                        input.selected_columns@,
                    ).map_values(|column: (u64, ColumnDefinition)| column.1)
                },
                Ok(Plan::Update { .. }) => prepared == (Prepared::Update { statement }),
                Ok(Plan::NotProcessed(SessionStatement::SetVariable)) => prepared == (
                    Prepared::SetVariable { statement }
                ),
                Ok(_) => prepared == Prepared::<Statement>::NotSupported,
                Err(errors) => prepared == Prepared::<Statement>::PlanErrors(errors),
            }
    }
}

/// Prepares the statement: finds out its shape.
pub fn prepare_statement(analyzer: &Analyzer, planner: &QueryPlanner, statement: Statement) -> (prepared:
    Prepared<Statement>)
    ensures
        statement_prepared(*analyzer, *planner, statement, prepared),
{
    match analyzer.try_describe(&statement) {
        Some(described) => {
            let ghost seen = described;
            let sql_types = match described {
                Ok(Description::Insert(insert)) => Ok(insert.sql_types),
                Err(error) => Err(error),
            };
            assert(analyzer.insert_described(
                insert_of(statement).unwrap().name@[0]@,
                insert_of(statement).unwrap().name@[1]@,
                seen,
            ) && sql_types == types_described(seen));
            Prepared::Insert { statement, sql_types }
        },
        None => {
            let planned = plan_statement(analyzer, planner, &statement);
            let ghost seen = planned;
            let prepared = match planned {
                Ok(Plan::Select(input)) => {
                    let columns = planner.column_defs(&input.table_id, &input.selected_columns);
                    Prepared::Select { statement, columns }
                },
                Ok(Plan::Update { .. }) => Prepared::Update { statement },
                Ok(Plan::NotProcessed(SessionStatement::SetVariable)) => Prepared::SetVariable {
                    statement,
                },
                Ok(_) => Prepared::NotSupported,
                Err(errors) => Prepared::PlanErrors(errors),
            };
            assert(statement_planned(*analyzer, *planner, statement, seen));
            prepared
        },
    }
}

/// Whether executing the plan can change the data.
pub open spec fn changes(plan: Plan) -> bool {
    !(plan is Select || plan is NotProcessed)
}

/// Whether executing the plan can change the data.
pub fn changes_data(plan: &Plan) -> (changing: bool)
    ensures
        changing == changes(*plan),
{
    match plan {
        Plan::Select(_) => false,
        Plan::NotProcessed(_) => false,
        _ => true,
    }
}

/// Whether the plan is run on the data: a plan that creates a schema or a
/// table is run only while an identifier is free for a catalog, for a
/// schema and for a table.
pub open spec fn has_room_for(state: DataState, plan: Plan) -> bool {
    plan is CreateSchema || plan is CreateTable ==> state.definitions.catalogs.next_id < u64::MAX
        && state.definitions.schemata.next_id < u64::MAX && state.definitions.tables.next_id
        < u64::MAX
}

/// What running a plan gives: the answers of its execution; where no
/// identifier is free for what it creates, nothing is changed and nothing
/// is answered.
pub open spec fn plan_run(before: DataState, after: DataState, plan: Plan, ran: Ran) -> bool {
    &&& ran matches Ran::Executed(answers)
    &&& if has_room_for(before, plan) {
        executed(before, after, plan, answers@)
    } else {
        after == before && answers@.len() == 0
    }
}

/// Runs the plan on the data.
pub fn run_plan(plan: Plan, data_manager: &mut DataManager) -> (ran: Ran)
    ensures
        plan_run(old(data_manager)@, final(data_manager)@, plan, ran),
{
    let room = match &plan {
        Plan::CreateSchema { .. } => data_manager.has_room(),
        Plan::CreateTable { .. } => data_manager.has_room(),
        _ => true,
    };
    if room {
        Ran::Executed(QueryExecutor::new().execute(plan, data_manager))
    } else {
        Ran::Executed(Vec::new())
    }
}

/// What planning a statement against the definitions gives.
pub open spec fn planned_from(
    definitions: Definitions,
    statement: Statement,
    planned: Result<Plan, Vec<PlanError>>,
) -> bool {
    exists|analyzer: Analyzer, planner: QueryPlanner|
        analyzer.definitions() == definitions && planner.definitions() == definitions
            && #[trigger] statement_planned(analyzer, planner, statement, planned)
}

/// What preparing a statement against the definitions gives.
pub open spec fn prepared_from(
    definitions: Definitions,
    statement: Statement,
    prepared: Prepared<Statement>,
) -> bool {
    exists|analyzer: Analyzer, planner: QueryPlanner|
        analyzer.definitions() == definitions && planner.definitions() == definitions
            && #[trigger] statement_prepared(analyzer, planner, statement, prepared)
}

/// What running a statement on the data gives: the statement is planned
/// against the definitions of the data; its plan is run; where it cannot
/// be planned, the data stays and the errors of the planning are given.
pub open spec fn statement_run(
    before: DataState,
    after: DataState,
    statement: Statement,
    ran: Ran,
) -> bool {
    exists|planned: Result<Plan, Vec<PlanError>>|
        #[trigger] planned_from(before.definitions, statement, planned) && match planned {
            Ok(plan) => plan_run(before, after, plan, ran),
            Err(errors) => ran == Ran::PlanErrors(errors) && after == before,
        }
}

/// Plans the statement against the definitions of the data and runs the
/// plan.
pub fn run_statement(statement: &Statement, data_manager: &mut DataManager) -> (ran: Ran)
    ensures
        statement_run(old(data_manager)@, final(data_manager)@, *statement, ran),
{
    let planned = {
        let definitions = data_manager.definitions();
        let analyzer = Analyzer::new(definitions);
        let planner = QueryPlanner::new(definitions);
        let planned = plan_statement(&analyzer, &planner, statement);
        assert(planned_from(old(data_manager)@.definitions, *statement, planned));
        planned
    };
    match planned {
        Ok(plan) => run_plan(plan, data_manager),
        Err(errors) => Ran::PlanErrors(errors),
    }
}

/// Prepares the statement against the definitions of the data.
pub fn prepare_against(data_manager: &DataManager, statement: Statement) -> (prepared: Prepared<
    Statement,
>)
    ensures
        prepared_from(data_manager@.definitions, statement, prepared),
{
    let definitions = data_manager.definitions();
    let analyzer = Analyzer::new(definitions);
    let planner = QueryPlanner::new(definitions);
    prepare_statement(&analyzer, &planner, statement)
}

/// What comes of the work that a command asks for, and what the work does
/// to the data. The text of a `Parse` is parsed and the statement is
/// prepared; the text of a `Query` is parsed and the statement is run; the
/// statement of the portal of an `Execute` is run. A text that is no
/// statement gives the message of the parser and leaves the data. Every
/// other command asks for nothing and leaves the data.
pub open spec fn work_done<P: Fn(&String) -> Result<Statement, String>>(
    engine: QueryEngine<Statement>,
    before: DataState,
    after: DataState,
    command: Command,
    parse: P,
    done: Done<Statement>,
) -> bool {
    match engine.work_spec(command) {
        Work::Nothing => done == Done::<Statement>::Nothing && after == before,
        Work::Prepare { sql } => after == before && exists|parsed: Result<Statement, String>|
            #[trigger] parse.ensures((sql,), parsed) && match parsed {
                Ok(statement) => done matches Done::Prepared(prepared) && prepared_from(
                    before.definitions,
                    statement,
                    prepared,
                ),
                Err(message) => done == Done::Prepared(
                    Prepared::<Statement>::SyntaxError(message),
                ),
            },
        Work::Run { sql } => exists|parsed: Result<Statement, String>|
            #[trigger] parse.ensures((sql,), parsed) && match parsed {
                Ok(statement) => done matches Done::Ran(ran) && statement_run(
                    before,
                    after,
                    statement,
                    ran,
                ),
                Err(message) => done == Done::<Statement>::Ran(Ran::SyntaxError(message))
                    && after == before,
            },
        Work::RunStatement { stmt } => done matches Done::Ran(ran) && statement_run(
            before,
            after,
            *stmt,
            ran,
        ),
    }
}

/// What executing a command does: the work that the command asks for is
/// done on the data, and the session answers with what came of it.
pub open spec fn command_executed<
    P: Fn(&String) -> Result<Statement, String>,
    D: Fn(PgType, PostgreSqlFormat, &Vec<u8>) -> Result<PostgreSqlValue, String>,
    B: Fn(&Statement, &Vec<PostgreSqlValue>) -> Result<Statement, ()>,
>(
    engine: QueryEngine<Statement>,
    engine_after: QueryEngine<Statement>,
    before: DataState,
    after: DataState,
    command: Command,
    parse: P,
    decode: D,
    bind: B,
    answer: (Result<(), ()>, Vec<Outgoing>),
) -> bool {
    exists|done: Done<Statement>|
        #[trigger] work_done(engine, before, after, command, parse, done) && responded(
            engine,
            engine_after,
            command,
            done,
            decode,
            bind,
            answer,
        )
}

impl QueryEngine<Statement> {
    /// Executes a command of the client on the data. The text of a `Parse`
    /// or of a `Query` is parsed by `parse`; the statement is prepared, or
    /// planned and run on the data; the parameters of a `Bind` are decoded
    /// by `decode` and put into the statement by `bind`. Says what goes
    /// out to the client, in order, and whether the session goes on: only
    /// `Terminate` ends it.
    pub fn execute<
        P: Fn(&String) -> Result<Statement, String>,
        D: Fn(PgType, PostgreSqlFormat, &Vec<u8>) -> Result<PostgreSqlValue, String>,
        B: Fn(&Statement, &Vec<PostgreSqlValue>) -> Result<Statement, ()>,
    >(
        &mut self,
        command: Command,
        data_manager: &mut DataManager,
        parse: &P,
        decode: &D,
        bind: &B,
    ) -> (answer: (Result<(), ()>, Vec<Outgoing>))
        requires
            forall|sql: &String| parse.requires((sql,)),
            forall|pg_type: PgType, format: PostgreSqlFormat, bytes: &Vec<u8>|
                decode.requires((pg_type, format, bytes)),
            forall|stmt: &Statement, params: &Vec<PostgreSqlValue>| bind.requires((stmt, params)),
        ensures
            command_executed(
                *old(self),
                *final(self),
                old(data_manager)@,
                final(data_manager)@,
                command,
                *parse,
                *decode,
                *bind,
                answer,
            ),
    {
        let done = match self.work_for(&command) {
            Work::Nothing => Done::Nothing,
            Work::Prepare { sql } => match parse(sql) {
                Ok(statement) => Done::Prepared(prepare_against(data_manager, statement)),
                Err(message) => Done::Prepared(Prepared::SyntaxError(message)),
            },
            Work::Run { sql } => match parse(sql) {
                Ok(statement) => Done::Ran(run_statement(&statement, data_manager)),
                Err(message) => Done::Ran(Ran::SyntaxError(message)),
            },
            Work::RunStatement { stmt } => Done::Ran(run_statement(stmt, data_manager)),
        };
        let ghost seen = done;
        assert(work_done(*old(self), old(data_manager)@, data_manager@, command, *parse, seen));
        self.respond(command, done, decode, bind)
    }
}

} // verus!
