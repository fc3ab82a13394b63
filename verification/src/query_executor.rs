//! What each plan does to the data and what it answers.

use crate::analyzer::texts;
use crate::binary::{
    datums_view, lemma_keys_injective, spec_key, spec_pack, spec_unpack, Binary, Datum, DatumView,
};
use crate::coercion::{coerce_value, value_coerced, CoercionError};
use crate::data_manager::{DataManager, DataState};
use crate::expr_eval::{
    lemma_value_without_columns, reduced, row_view, without_columns, DynamicExpressionEvaluation,
    EvalError, Scalar, ScalarOp, ScalarValue,
};
use crate::in_memory::{pairs_view, values_view, Key, Value};
use crate::metadata::{select_columns, selected, ColumnDefinition, FullTableId, DEFAULT_CATALOG};
use crate::name_map::NameMap;
use crate::protocol::{PlanError, QueryError, QueryEvent, QueryResult};
use crate::query_planner::{problem_reported, report, InsertProblem};
use crate::sql_types::SqlType;
use crate::query_engine::{describe, described};
use crate::statement::SessionStatement;
use crate::table_state::TableState;
use crate::text::{decimal, push_decimal, signed_decimal, spec_decimal, spec_signed_decimal};
use vstd::prelude::*;
use vstd::string::StringExecFns;

verus! {

/// The table whose rows a delete removes, and the expression that chooses
/// them: the rows of which it holds, and all rows where there is none.
#[derive(Debug, PartialEq, Eq)]
pub struct TableDeletes {
    pub table_id: FullTableId,
    pub predicate: Option<ScalarOp>,
}

/// The table and the columns that a select reads.
#[derive(Debug, PartialEq, Eq)]
pub struct SelectInput {
    pub table_id: FullTableId,
    pub selected_columns: Vec<u64>,
}

/// What is to be executed.
#[derive(Debug, PartialEq, Eq)]
pub enum Plan {
    CreateSchema { schema_name: String, if_not_exists: bool },
    DropSchemas { schema_names: Vec<String>, cascade: bool },
    CreateTable {
        schema_id: u64,
        table_name: String,
        columns: Vec<ColumnDefinition>,
        if_not_exists: bool,
    },
    DropTables { table_ids: Vec<FullTableId>, cascade: bool },
    Insert { table_id: FullTableId, rows: Vec<Vec<Datum>> },
    Update { table_id: FullTableId, assignments: Vec<(u64, SqlType, ScalarOp)> },
    Delete(TableDeletes),
    Select(SelectInput),
    NotProcessed(SessionStatement),
}

/// The keys of rows, in order.
pub open spec fn keys_of(rows: Seq<(Seq<u8>, Seq<u8>)>) -> Seq<Seq<u8>> {
    rows.map_values(|row: (Seq<u8>, Seq<u8>)| row.0)
}

/// The table without its rows.
pub open spec fn emptied(table: TableState) -> TableState {
    TableState {
        records: Seq::empty(),
        next_record_id: table.next_record_id,
        next_column_ord: table.next_column_ord,
    }
}

/// The datums for ordinals as values.
pub open spec fn assignments_view(assignments: Seq<(u64, Datum)>) -> Seq<(u64, DatumView)> {
    assignments.map_values(|assignment: (u64, Datum)| (assignment.0, assignment.1@))
}

/// The datums of a row after the assignments, one after the other: each
/// puts a datum in the place of the datum at its ordinal; an assignment to
/// an ordinal that the row does not have changes nothing.
pub open spec fn assigned(datums: Seq<DatumView>, assignments: Seq<(u64, DatumView)>) -> Seq<
    DatumView,
>
    decreases assignments.len(),
{
    if assignments.len() == 0 {
        datums
    } else {
        let front = assigned(datums, assignments.drop_last());
        if assignments.last().0 < front.len() {
            front.update(assignments.last().0 as int, assignments.last().1)
        } else {
            front
        }
    }
}

/// The value of a row after the assignments; a value that packs no tuple
/// stays as it is.
pub open spec fn row_updated(value: Seq<u8>, assignments: Seq<(u64, DatumView)>) -> Seq<u8> {
    match spec_unpack(value) {
        Some(datums) => spec_pack(assigned(datums, assignments)),
        None => value,
    }
}

/// The text that names a table by its handle where its name is not known.
pub open spec fn handle_text(table_id: FullTableId) -> Seq<char> {
    spec_decimal(table_id.0 as nat) + "."@ + spec_decimal(table_id.1 as nat)
}

/// The packings of rows.
pub open spec fn packed(rows: Seq<Vec<Datum>>) -> Seq<Seq<u8>> {
    rows.map_values(|row: Vec<Datum>| spec_pack(datums_view(row@)))
}

/// The text of a datum in a row of a result.
pub open spec fn datum_text(datum: DatumView) -> Seq<char> {
    match datum {
        DatumView::Null => "NULL"@,
        DatumView::Bool(b) => if b {
            "t"@
        } else {
            "f"@
        },
        DatumView::Int16(v) => spec_signed_decimal(v as int),
        DatumView::Int32(v) => spec_signed_decimal(v as int),
        DatumView::Int64(v) => spec_signed_decimal(v as int),
        DatumView::UInt64(v) => spec_decimal(v as nat),
        DatumView::Str(s) => s,
    }
}

/// The datums that a value packs; none where it packs no tuple.
pub open spec fn datums_of(value: Seq<u8>) -> Seq<DatumView> {
    match spec_unpack(value) {
        Some(datums) => datums,
        None => Seq::empty(),
    }
}

/// The texts of the datums of a row at the ordinals, in the order of the
/// ordinals; the empty text where the row has no datum at an ordinal.
pub open spec fn row_texts(datums: Seq<DatumView>, ordinals: Seq<u64>) -> Seq<Seq<char>> {
    ordinals.map_values(
        |ordinal: u64|
            if ordinal < datums.len() {
                datum_text(datums[ordinal as int])
            } else {
                Seq::<char>::empty()
            },
    )
}

/// The position in a row of each column of a table, by name: the ordinal
/// of the column; of two columns of one name, that of the later.
pub open spec fn column_positions(numbered: Seq<(u64, ColumnDefinition)>) -> Map<Seq<char>, usize>
    decreases numbered.len(),
{
    if numbered.len() == 0 {
        Map::empty()
    } else {
        let front = column_positions(numbered.drop_last());
        if numbered.last().0 <= usize::MAX {
            front.insert(numbered.last().1.name@, numbered.last().0 as usize)
        } else {
            front
        }
    }
}

/// Whether the expression holds of the row that the value packs: it does
/// where its value for the row is true, and does not where its value is
/// anything else; where it has no value for the row, neither.
pub open spec fn holds_of(columns: Map<Seq<char>, usize>, value: Seq<u8>, predicate: ScalarOp) -> Result<
    bool,
    EvalError,
> {
    match reduced(columns, datums_of(value), predicate) {
        Ok(Scalar::Bool(holds)) => Ok(holds),
        Ok(_) => Ok(false),
        Err(error) => Err(error),
    }
}

/// The keys of the rows of which the expression holds, in the order of
/// the rows; where the expression has no value for a row, the error of the
/// first such row.
pub open spec fn chosen_keys(
    columns: Map<Seq<char>, usize>,
    rows: Seq<(Seq<u8>, Seq<u8>)>,
    predicate: ScalarOp,
) -> Result<Seq<Seq<u8>>, EvalError>
    decreases rows.len(),
{
    if rows.len() == 0 {
        Ok(Seq::empty())
    } else {
        match chosen_keys(columns, rows.drop_last(), predicate) {
            Err(error) => Err(error),
            Ok(keys) => match holds_of(columns, rows.last().1, predicate) {
                Err(error) => Err(error),
                Ok(holds) => if holds {
                    Ok(keys.push(rows.last().0))
                } else {
                    Ok(keys)
                },
            },
        }
    }
}

/// An error among the first `n` rows is the error of all rows.
pub proof fn lemma_error_stays(
    columns: Map<Seq<char>, usize>,
    rows: Seq<(Seq<u8>, Seq<u8>)>,
    predicate: ScalarOp,
    n: int,
)
    requires
        0 <= n <= rows.len(),
        chosen_keys(columns, rows.take(n), predicate) is Err,
    ensures
        chosen_keys(columns, rows, predicate) == chosen_keys(columns, rows.take(n), predicate),
    decreases rows.len(),
{
    if n == rows.len() {
        assert(rows.take(n) =~= rows);
    } else {
        assert(rows.drop_last().take(n) =~= rows.take(n));
        lemma_error_stays(columns, rows.drop_last(), predicate, n);
    }
}

/// Where the expression has a value for every row, it has one for each of
/// the first `n` rows.
pub proof fn lemma_chosen_of_prefix(
    columns: Map<Seq<char>, usize>,
    rows: Seq<(Seq<u8>, Seq<u8>)>,
    predicate: ScalarOp,
    n: int,
)
    requires
        0 <= n <= rows.len(),
        chosen_keys(columns, rows, predicate) is Ok,
    ensures
        chosen_keys(columns, rows.take(n), predicate) is Ok,
{
    if chosen_keys(columns, rows.take(n), predicate) is Err {
        lemma_error_stays(columns, rows, predicate, n);
    }
}

/// The keys that are chosen are the keys of the rows of which the
/// expression holds.
pub proof fn lemma_chosen_are_those_that_hold(
    columns: Map<Seq<char>, usize>,
    rows: Seq<(Seq<u8>, Seq<u8>)>,
    predicate: ScalarOp,
)
    requires
        chosen_keys(columns, rows, predicate) is Ok,
    ensures
        forall|key: Seq<u8>|
            chosen_keys(columns, rows, predicate).unwrap().contains(key) <==> exists|i: int|
                0 <= i < rows.len() && (#[trigger] rows[i]).0 == key && holds_of(
                    columns,
                    rows[i].1,
                    predicate,
                ) == Ok::<bool, EvalError>(true),
    decreases rows.len(),
{
    let keys = chosen_keys(columns, rows, predicate).unwrap();
    if rows.len() > 0 {
        let front = rows.drop_last();
        let front_keys = chosen_keys(columns, front, predicate).unwrap();
        lemma_chosen_are_those_that_hold(columns, front, predicate);
        let holds = holds_of(columns, rows.last().1, predicate).unwrap();
        assert forall|key: Seq<u8>| keys.contains(key) <==> exists|i: int|
            0 <= i < rows.len() && (#[trigger] rows[i]).0 == key && holds_of(
                columns,
                rows[i].1,
                predicate,
            ) == Ok::<bool, EvalError>(true) by {
            if keys.contains(key) {
                let at = choose|at: int| 0 <= at < keys.len() && keys[at] == key;
                if at < front_keys.len() {
                    assert(front_keys[at] == key);
                    assert(front_keys.contains(key));
                    let i = choose|i: int|
                        0 <= i < front.len() && (#[trigger] front[i]).0 == key && holds_of(
                            columns,
                            front[i].1,
                            predicate,
                        ) == Ok::<bool, EvalError>(true);
                    assert(rows[i] == front[i]);
                } else {
                    assert(holds);
                    assert(rows[rows.len() - 1].0 == key);
                }
            }
            if exists|i: int|
                0 <= i < rows.len() && (#[trigger] rows[i]).0 == key && holds_of(
                    columns,
                    rows[i].1,
                    predicate,
                ) == Ok::<bool, EvalError>(true) {
                let i = choose|i: int|
                    0 <= i < rows.len() && (#[trigger] rows[i]).0 == key && holds_of(
                        columns,
                        rows[i].1,
                        predicate,
                    ) == Ok::<bool, EvalError>(true);
                if i < front.len() {
                    assert(front[i] == rows[i]);
                    assert(front_keys.contains(key));
                    let at = choose|at: int| 0 <= at < front_keys.len() && front_keys[at] == key;
                    assert(keys[at] == key);
                } else {
                    assert(keys[keys.len() - 1] == key);
                }
            }
        }
    }
}

/// Deleting the keys that the expression chooses among the rows of a
/// table removes as many rows as there are keys.
pub proof fn lemma_delete_chosen_rows(
    table: TableState,
    columns: Map<Seq<char>, usize>,
    predicate: ScalarOp,
)
    requires
        table.wf(),
        chosen_keys(columns, table.rows(), predicate) is Ok,
    ensures
        table.deleted(chosen_keys(columns, table.rows(), predicate).unwrap()).records.len()
            + chosen_keys(columns, table.rows(), predicate).unwrap().len() == table.records.len(),
{
    let keys = chosen_keys(columns, table.rows(), predicate).unwrap();
    lemma_count_of_prefix(table, columns, predicate, table.records.len() as int);
    assert(table.records.take(table.records.len() as int) =~= table.records);
    assert(table.rows().take(table.records.len() as int) =~= table.rows());
}

/// Among the first `n` records, those that stay and the keys that are
/// chosen are `n` together.
proof fn lemma_count_of_prefix(
    table: TableState,
    columns: Map<Seq<char>, usize>,
    predicate: ScalarOp,
    n: int,
)
    requires
        table.wf(),
        0 <= n <= table.records.len(),
        chosen_keys(columns, table.rows(), predicate) is Ok,
    ensures
        chosen_keys(columns, table.rows().take(n), predicate) is Ok,
        table.records.take(n).filter(
            |r: (u64, Seq<u8>)|
                !chosen_keys(columns, table.rows(), predicate).unwrap().contains(spec_key(r.0)),
        ).len() + chosen_keys(columns, table.rows().take(n), predicate).unwrap().len() == n,
    decreases n,
{
    reveal(Seq::filter);
    let rows = table.rows();
    let keys = chosen_keys(columns, rows, predicate).unwrap();
    let stays = |r: (u64, Seq<u8>)| !keys.contains(spec_key(r.0));
    lemma_chosen_of_prefix(columns, rows, predicate, n);
    if n > 0 {
        lemma_count_of_prefix(table, columns, predicate, n - 1);
        assert(table.records.take(n).drop_last() =~= table.records.take(n - 1));
        assert(rows.take(n).drop_last() =~= rows.take(n - 1));
        let record = table.records[n - 1];
        assert(table.records.take(n).last() == record);
        assert(rows.take(n).last() == rows[n - 1]);
        assert(rows[n - 1] == (spec_key(record.0), record.1));
        lemma_chosen_are_those_that_hold(columns, rows, predicate);
        let holds = holds_of(columns, record.1, predicate);
        if keys.contains(spec_key(record.0)) {
            let i = choose|i: int|
                0 <= i < rows.len() && (#[trigger] rows[i]).0 == spec_key(record.0) && holds_of(
                    columns,
                    rows[i].1,
                    predicate,
                ) == Ok::<bool, EvalError>(true);
            lemma_keys_injective(table.records[i].0, record.0);
            if i < n - 1 {
                assert(table.records[i].0 < table.records[n - 1].0);
            } else if i > n - 1 {
                assert(table.records[n - 1].0 < table.records[i].0);
            }
            assert(i == n - 1);
            assert(holds == Ok::<bool, EvalError>(true));
        } else {
            if holds == Ok::<bool, EvalError>(true) {
                assert(rows[n - 1].0 == spec_key(record.0));
                assert(false);
            }
        }
    }
}

/// Deleting the keys of all rows of a table leaves no row; the counters
/// stay, so that no record id comes again.
pub proof fn lemma_delete_all_rows(table: TableState)
    ensures
        table.deleted(keys_of(table.rows())) == emptied(table),
{
    let keys = keys_of(table.rows());
    let pred = |r: (u64, Seq<u8>)| !keys.contains(spec_key(r.0));
    assert forall|i: int| 0 <= i < table.records.len() implies !pred(#[trigger] table.records[i]) by {
        assert(keys[i] == spec_key(table.records[i].0));
    }
    let kept = table.records.filter(pred);
    if kept.len() > 0 {
        table.records.lemma_filter_pred(pred, 0);
        assert(kept.contains(kept[0]));
        table.records.lemma_filter_contains_rev(pred, kept[0]);
    }
    assert(kept =~= Seq::<(u64, Seq<u8>)>::empty());
}

/// Pairs whose keys are all keys of rows of the table all find their row.
pub proof fn lemma_hits_all(table: TableState, pairs: Seq<(Seq<u8>, Seq<u8>)>)
    requires
        forall|i: int| 0 <= i < pairs.len() ==> table.has_key(#[trigger] pairs[i].0),
    ensures
        table.hits(pairs) == pairs.len(),
    decreases pairs.len(),
{
    if pairs.len() > 0 {
        assert forall|i: int| 0 <= i < pairs.drop_last().len() implies table.has_key(
            #[trigger] pairs.drop_last()[i].0,
        ) by {
            assert(pairs.drop_last()[i] == pairs[i]);
        }
        lemma_hits_all(table, pairs.drop_last());
        assert(table.has_key(pairs[pairs.len() - 1].0));
    }
}

/// Why the rows of a table are not updated.
#[derive(Debug, Clone, PartialEq, Eq)]
pub enum UpdateProblem {
    /// An expression has no value for a row.
    Evaluation(EvalError),
    /// The value of an expression is no value of its column.
    Value { error: CoercionError, sql_type: SqlType },
}

/// The datum that each assignment puts at its ordinal for a row: the value
/// of its expression for the row, as a value of its column. Where an
/// expression has no value, or its value is no value of its column, the
/// problem of the first such assignment.
pub open spec fn evaluated(
    columns: Map<Seq<char>, usize>,
    datums: Seq<DatumView>,
    assignments: Seq<(u64, SqlType, ScalarOp)>,
) -> Result<Seq<(u64, DatumView)>, UpdateProblem>
    decreases assignments.len(),
{
    if assignments.len() == 0 {
        Ok(Seq::empty())
    } else {
        match evaluated(columns, datums, assignments.drop_last()) {
            Err(problem) => Err(problem),
            Ok(front) => match reduced(columns, datums, assignments.last().2) {
                Err(error) => Err(UpdateProblem::Evaluation(error)),
                Ok(value) => match value_coerced(value, assignments.last().1) {
                    Err(error) => Err(
                        UpdateProblem::Value { error, sql_type: assignments.last().1 },
                    ),
                    Ok(datum) => Ok(front.push((assignments.last().0, datum))),
                },
            },
        }
    }
}

/// The value of a row after the assignments, each expression evaluated
/// for the row as it was.
pub open spec fn row_changed(
    columns: Map<Seq<char>, usize>,
    value: Seq<u8>,
    assignments: Seq<(u64, SqlType, ScalarOp)>,
) -> Result<Seq<u8>, UpdateProblem> {
    match evaluated(columns, datums_of(value), assignments) {
        Ok(pairs) => Ok(row_updated(value, pairs)),
        Err(problem) => Err(problem),
    }
}

/// The rows after the assignments, each under its key; where a row cannot
/// be changed, the problem of the first such row.
pub open spec fn rows_changed(
    columns: Map<Seq<char>, usize>,
    rows: Seq<(Seq<u8>, Seq<u8>)>,
    assignments: Seq<(u64, SqlType, ScalarOp)>,
) -> Result<Seq<(Seq<u8>, Seq<u8>)>, UpdateProblem>
    decreases rows.len(),
{
    if rows.len() == 0 {
        Ok(Seq::empty())
    } else {
        match rows_changed(columns, rows.drop_last(), assignments) {
            Err(problem) => Err(problem),
            Ok(front) => match row_changed(columns, rows.last().1, assignments) {
                Err(problem) => Err(problem),
                Ok(value) => Ok(front.push((rows.last().0, value))),
            },
        }
    }
}

/// The problem among the first `n` assignments is the problem of all.
pub proof fn lemma_evaluation_problem_stays(
    columns: Map<Seq<char>, usize>,
    datums: Seq<DatumView>,
    assignments: Seq<(u64, SqlType, ScalarOp)>,
    n: int,
)
    requires
        0 <= n <= assignments.len(),
        evaluated(columns, datums, assignments.take(n)) is Err,
    ensures
        evaluated(columns, datums, assignments) == evaluated(columns, datums, assignments.take(n)),
    decreases assignments.len() - n,
{
    if n < assignments.len() {
        assert(assignments.take(n + 1).drop_last() =~= assignments.take(n));
        lemma_evaluation_problem_stays(columns, datums, assignments, n + 1);
    } else {
        assert(assignments.take(n) =~= assignments);
    }
}

/// The problem among the first `n` rows is the problem of all.
pub proof fn lemma_row_problem_stays(
    columns: Map<Seq<char>, usize>,
    rows: Seq<(Seq<u8>, Seq<u8>)>,
    assignments: Seq<(u64, SqlType, ScalarOp)>,
    n: int,
)
    requires
        0 <= n <= rows.len(),
        rows_changed(columns, rows.take(n), assignments) is Err,
    ensures
        rows_changed(columns, rows, assignments) == rows_changed(columns, rows.take(n), assignments),
    decreases rows.len() - n,
{
    if n < rows.len() {
        assert(rows.take(n + 1).drop_last() =~= rows.take(n));
        lemma_row_problem_stays(columns, rows, assignments, n + 1);
    } else {
        assert(rows.take(n) =~= rows);
    }
}

/// Assignments whose expressions name no column put the same datums into
/// every row of every table, and fail for every row where they fail for
/// one: what they give does not depend on the row or on the columns.
pub proof fn lemma_assignments_without_columns(
    assignments: Seq<(u64, SqlType, ScalarOp)>,
    columns: Map<Seq<char>, usize>,
    datums: Seq<DatumView>,
    other_columns: Map<Seq<char>, usize>,
    other_datums: Seq<DatumView>,
)
    requires
        forall|i: int| 0 <= i < assignments.len() ==> without_columns((#[trigger] assignments[i]).2),
    ensures
        evaluated(columns, datums, assignments) == evaluated(
            other_columns,
            other_datums,
            assignments,
        ),
    decreases assignments.len(),
{
    if assignments.len() > 0 {
        assert forall|i: int| 0 <= i < assignments.drop_last().len() implies without_columns(
            (#[trigger] assignments.drop_last()[i]).2,
        ) by {
            assert(assignments.drop_last()[i] == assignments[i]);
        }
        lemma_assignments_without_columns(
            assignments.drop_last(),
            columns,
            datums,
            other_columns,
            other_datums,
        );
        assert(without_columns(assignments[assignments.len() - 1].2));
        lemma_value_without_columns(
            assignments.last().2,
            columns,
            datums,
            other_columns,
            other_datums,
        );
    }
}

/// The rows that were changed stand under the keys of the rows, in order.
pub proof fn lemma_changed_rows_keep_keys(
    columns: Map<Seq<char>, usize>,
    rows: Seq<(Seq<u8>, Seq<u8>)>,
    assignments: Seq<(u64, SqlType, ScalarOp)>,
)
    requires
        rows_changed(columns, rows, assignments) is Ok,
    ensures
        rows_changed(columns, rows, assignments).unwrap().len() == rows.len(),
        forall|i: int|
            0 <= i < rows.len() ==> (#[trigger] rows_changed(
                columns,
                rows,
                assignments,
            ).unwrap()[i]).0 == rows[i].0,
    decreases rows.len(),
{
    if rows.len() > 0 {
        lemma_changed_rows_keep_keys(columns, rows.drop_last(), assignments);
    }
}

/// The keys of the rows, copied in order.
pub fn copy_keys(rows: &Vec<(Key, Value)>) -> (keys: Vec<Key>)
    ensures
        values_view(keys@) == keys_of(pairs_view(rows@)),
{
    let mut keys: Vec<Key> = Vec::new();
    let mut i: usize = 0;
    while i < rows.len()
        invariant
            i <= rows.len(),
            values_view(keys@) == keys_of(pairs_view(rows@)).take(i as int),
        decreases rows.len() - i,
    {
        let ghost before = values_view(keys@);
        keys.push(rows[i].0.copy());
        i = i + 1;
        assert(values_view(keys@) =~= before.push(rows@[i - 1].0@));
        assert(values_view(keys@) =~= keys_of(pairs_view(rows@)).take(i as int));
    }
    assert(keys_of(pairs_view(rows@)).take(i as int) =~= keys_of(pairs_view(rows@)));
    keys
}

/// The text that names a table by its handle.
pub fn handle_name(table_id: &FullTableId) -> (name: String)
    ensures
        name@ == handle_text(*table_id),
{
    let mut name = decimal(table_id.0);
    name.append(".");
    push_decimal(&mut name, table_id.1);
    assert(name@ =~= handle_text(*table_id));
    name
}

/// The one answer that says that there is no table of the handle.
pub open spec fn no_such_table(table_id: FullTableId, answers: Seq<QueryResult>) -> bool {
    &&& answers.len() == 1
    &&& answers[0] matches Err(QueryError::TableDoesNotExist(name))
    &&& name@ == handle_text(table_id)
}

/// Answers that there is no table of the handle.
fn answer_no_such_table(table_id: &FullTableId) -> (answers: Vec<QueryResult>)
    ensures
        no_such_table(*table_id, answers@),
{
    let mut answers: Vec<QueryResult> = Vec::new();
    answers.push(Err(QueryError::table_does_not_exist(handle_name(table_id))));
    answers
}

/// One answer.
fn answer(event: QueryEvent) -> (answers: Vec<QueryResult>)
    ensures
        answers@ == seq![Ok::<QueryEvent, QueryError>(event)],
{
    let mut answers: Vec<QueryResult> = Vec::new();
    answers.push(Ok(event));
    assert(answers@ =~= seq![Ok::<QueryEvent, QueryError>(event)]);
    answers
}

/// The positions of the columns of a table, by name.
pub fn positions_of(numbered: &Vec<(u64, ColumnDefinition)>) -> (columns: NameMap<usize>)
    ensures
        columns@ == column_positions(numbered@),
{
    let mut columns: NameMap<usize> = NameMap::new();
    let mut i: usize = 0;
    assert(numbered@.take(0) =~= Seq::empty());
    while i < numbered.len()
        invariant
            i <= numbered.len(),
            columns@ == column_positions(numbered@.take(i as int)),
        decreases numbered.len() - i,
    {
        proof {
            assert(numbered@.take(i + 1).drop_last() =~= numbered@.take(i as int));
            assert(numbered@.take(i + 1).last() == numbered@[i as int]);
        }
        let ordinal = numbered[i].0;
        if ordinal <= usize::MAX as u64 {
            columns.insert(numbered[i].1.name.clone(), ordinal as usize);
        }
        i = i + 1;
    }
    assert(numbered@.take(i as int) =~= numbered@);
    columns
}

/// The keys of the rows of which the expression holds, copied in order,
/// or the error of the first row for which it has no value.
pub fn choose_keys(
    evaluation: &DynamicExpressionEvaluation,
    rows: &Vec<(Key, Value)>,
    predicate: &ScalarOp,
) -> (chosen: Result<Vec<Key>, EvalError>)
    ensures
        match chosen {
            Ok(keys) => chosen_keys(evaluation.columns(), pairs_view(rows@), *predicate) == Ok::<
                Seq<Seq<u8>>,
                EvalError,
            >(values_view(keys@)),
            Err(error) => chosen_keys(evaluation.columns(), pairs_view(rows@), *predicate) == Err::<
                Seq<Seq<u8>>,
                EvalError,
            >(error),
        },
{
    let ghost all = pairs_view(rows@);
    let mut keys: Vec<Key> = Vec::new();
    let mut i: usize = 0;
    assert(all.take(0) =~= Seq::empty());
    assert(values_view(keys@) =~= Seq::empty());
    while i < rows.len()
        invariant
            i <= rows.len(),
            all == pairs_view(rows@),
            chosen_keys(evaluation.columns(), all.take(i as int), *predicate) == Ok::<
                Seq<Seq<u8>>,
                EvalError,
            >(values_view(keys@)),
        decreases rows.len() - i,
    {
        proof {
            assert(all.take(i + 1).drop_last() =~= all.take(i as int));
            assert(all.take(i + 1).last() == all[i as int]);
        }
        let datums = match rows[i].1.unpack() {
            Some(datums) => datums,
            None => Vec::new(),
        };
        assert(row_view(datums@) =~= datums_of(rows@[i as int].1@));
        let ghost before = values_view(keys@);
        match evaluation.value(datums.as_slice(), predicate) {
            Err(error) => {
                proof {
                    lemma_error_stays(evaluation.columns(), all, *predicate, i + 1);
                }
                return Err(error);
            },
            Ok(ScalarValue::Bool(true)) => {
                keys.push(rows[i].0.copy());
                assert(values_view(keys@) =~= before.push(all[i as int].0));
            },
            Ok(_) => {},
        }
        i = i + 1;
    }
    assert(all.take(i as int) =~= all);
    Ok(keys)
}

/// What a delete does to the data and what it answers. Without an
/// expression it leaves the table without rows and answers with the number
/// of rows that there were. With an expression it removes the rows of
/// which the expression holds and answers with their number; where the
/// expression has no value for a row, it removes nothing and answers with
/// the error of the first such row. Where there is no such table it
/// changes nothing and answers so.
pub open spec fn rows_deleted(
    before: DataState,
    after: DataState,
    table_id: FullTableId,
    predicate: Option<ScalarOp>,
    answers: Seq<QueryResult>,
) -> bool {
    match before.table(table_id) {
        Some(table) => match predicate {
            None => {
                &&& answers == seq![
                    Ok::<QueryEvent, QueryError>(
                        QueryEvent::RecordsDeleted(table.records.len() as usize),
                    ),
                ]
                &&& after == before.with_rows(table_id, emptied(table))
            },
            Some(predicate) => match chosen_keys(
                column_positions(before.definitions.table_columns(table_id.1)),
                table.rows(),
                predicate,
            ) {
                Ok(keys) => {
                    &&& answers == seq![
                        Ok::<QueryEvent, QueryError>(
                            QueryEvent::RecordsDeleted(keys.len() as usize),
                        ),
                    ]
                    &&& after == before.with_rows(table_id, table.deleted(keys))
                },
                Err(error) => {
                    &&& after == before
                    &&& answers.len() == 1
                    &&& answers[0] matches Err(reported)
                    &&& error.reported_as(reported)
                },
            },
        },
        None => no_such_table(table_id, answers) && after == before,
    }
}

/// The command that deletes rows of a table.
#[derive(Debug)]
pub struct DeleteCommand {
    table_deletes: TableDeletes,
}

impl DeleteCommand {
    /// The table whose rows the command deletes.
    pub closed spec fn table_id(&self) -> FullTableId {
        self.table_deletes.table_id
    }

    /// The expression that chooses the rows, if there is one.
    pub closed spec fn predicate(&self) -> Option<ScalarOp> {
        self.table_deletes.predicate
    }

    pub fn new(table_deletes: TableDeletes) -> (command: DeleteCommand)
        ensures
            command.table_id() == table_deletes.table_id,
            command.predicate() == table_deletes.predicate,
    {
        DeleteCommand { table_deletes }
    }

    /// Scans the table, collects the keys of the rows that the expression
    /// chooses, or of all rows where there is none, deletes the rows under
    /// those keys, and answers with the number of rows deleted.
    pub fn execute(&self, data_manager: &mut DataManager) -> (answers: Vec<QueryResult>)
        ensures
            rows_deleted(
                old(data_manager)@,
                final(data_manager)@,
                self.table_id(),
                self.predicate(),
                answers@,
            ),
    {
        let reads = match data_manager.full_scan(&self.table_deletes.table_id) {
            Err(_) => {
                return answer_no_such_table(&self.table_deletes.table_id);
            },
            Ok(reads) => reads,
        };
        let rows = reads.collect();
        let ghost table = old(data_manager)@.table(self.table_id()).unwrap();
        let keys = match &self.table_deletes.predicate {
            None => {
                proof {
                    lemma_delete_all_rows(table);
                }
                copy_keys(&rows)
            },
            Some(predicate) => {
                let numbered = data_manager.definitions().table_columns(
                    self.table_deletes.table_id.1,
                );
                let evaluation = DynamicExpressionEvaluation::new(positions_of(&numbered));
                match choose_keys(&evaluation, &rows, predicate) {
                    Ok(keys) => {
                        proof {
                            lemma_delete_chosen_rows(table, evaluation.columns(), *predicate);
                        }
                        keys
                    },
                    Err(error) => {
                        let mut answers: Vec<QueryResult> = Vec::new();
                        answers.push(Err(error.to_query_error()));
                        return answers;
                    },
                }
            },
        };
        match data_manager.delete_from(&self.table_deletes.table_id, keys) {
            Err(_) => answer_no_such_table(&self.table_deletes.table_id),
            Ok(size) => answer(QueryEvent::RecordsDeleted(size)),
        }
    }
}

/// The command that drops a table.
#[derive(Debug)]
pub struct DropTableCommand {
    table_id: FullTableId,
}

impl DropTableCommand {
    /// The table that the command drops.
    pub closed spec fn table_id(&self) -> FullTableId {
        self.table_id
    }

    pub fn new(table_id: FullTableId) -> (command: DropTableCommand)
        ensures
            command.table_id() == table_id,
    {
        DropTableCommand { table_id }
    }

    /// Drops the table with its rows and its definition and answers that
    /// the table was dropped. Where there is no such table it changes
    /// nothing and answers so.
    pub fn execute(&mut self, data_manager: &mut DataManager) -> (answers: Vec<QueryResult>)
        ensures
            final(self).table_id() == old(self).table_id(),
            final(data_manager)@ == old(data_manager)@.table_dropped(old(self).table_id()),
            table_dropped_answered(old(data_manager)@, old(self).table_id(), answers@),
    {
        match data_manager.drop_table(&self.table_id) {
            Ok(_) => answer(QueryEvent::TableDropped),
            Err(_) => answer_no_such_table(&self.table_id),
        }
    }
}

/// What dropping a table answers.
pub open spec fn table_dropped_answered(
    state: DataState,
    table_id: FullTableId,
    answers: Seq<QueryResult>,
) -> bool {
    if state.stored_under(table_id) is Some {
        answers == seq![Ok::<QueryEvent, QueryError>(QueryEvent::TableDropped)]
    } else {
        no_such_table(table_id, answers)
    }
}

/// The rows, each packed.
pub fn pack_rows(rows: &Vec<Vec<Datum>>) -> (values: Vec<Value>)
    ensures
        values_view(values@) == packed(rows@),
{
    let mut values: Vec<Value> = Vec::new();
    let mut i: usize = 0;
    while i < rows.len()
        invariant
            i <= rows.len(),
            values_view(values@) == packed(rows@).take(i as int),
        decreases rows.len() - i,
    {
        let ghost before = values_view(values@);
        values.push(Binary::pack(rows[i].as_slice()));
        i = i + 1;
        assert(values_view(values@) =~= before.push(packed(rows@)[i - 1]));
        assert(values_view(values@) =~= packed(rows@).take(i as int));
    }
    assert(packed(rows@).take(i as int) =~= packed(rows@));
    values
}

/// Inserts the rows into the table and answers with the number of rows
/// stored. Where there is no such table it changes nothing and answers so.
pub fn insert_rows(data_manager: &mut DataManager, table_id: &FullTableId, rows: &Vec<Vec<Datum>>) -> (answers:
    Vec<QueryResult>)
    ensures
        match old(data_manager)@.table(*table_id) {
            Some(table) => {
                &&& answers@ == seq![
                    Ok::<QueryEvent, QueryError>(
                        QueryEvent::RecordsInserted(table.accepted(rows@.len()) as usize),
                    ),
                ]
                &&& final(data_manager)@ == old(data_manager)@.with_rows(
                    *table_id,
                    table.inserted(packed(rows@)),
                )
            },
            None => no_such_table(*table_id, answers@) && final(data_manager)@ == old(
                data_manager,
            )@,
        },
{
    let values = pack_rows(rows);
    match data_manager.write_into(table_id, values) {
        Ok(stored) => answer(QueryEvent::RecordsInserted(stored)),
        Err(_) => answer_no_such_table(table_id),
    }
}

/// The value of a row after the assignments.
pub fn update_value(value: &Value, assignments: &Vec<(u64, Datum)>) -> (updated: Value)
    ensures
        updated@ == row_updated(value@, assignments_view(assignments@)),
{
    let mut datums = match value.unpack() {
        Some(datums) => datums,
        None => {
            return value.copy();
        },
    };
    let ghost start = datums_view(datums@);
    let ghost all = assignments_view(assignments@);
    let mut i: usize = 0;
    assert(all.take(0) =~= Seq::empty());
    while i < assignments.len()
        invariant
            i <= assignments.len(),
            all == assignments_view(assignments@),
            datums_view(datums@) == assigned(start, all.take(i as int)),
        decreases assignments.len() - i,
    {
        proof {
            assert(all.take(i + 1).drop_last() =~= all.take(i as int));
            assert(all.take(i + 1).last() == all[i as int]);
        }
        let ordinal = assignments[i].0;
        if ordinal < datums.len() as u64 {
            let ghost before = datums_view(datums@);
            datums.set(ordinal as usize, assignments[i].1.copy());
            assert(datums_view(datums@) =~= before.update(ordinal as int, all[i as int].1));
        }
        i = i + 1;
    }
    assert(all.take(i as int) =~= all);
    Binary::pack(datums.as_slice())
}

/// The datum that each assignment puts at its ordinal for the row.
pub fn evaluate_assignments(
    evaluation: &DynamicExpressionEvaluation,
    datums: &Vec<Datum>,
    assignments: &Vec<(u64, SqlType, ScalarOp)>,
) -> (pairs: Result<Vec<(u64, Datum)>, UpdateProblem>)
    ensures
        match pairs {
            Ok(pairs) => evaluated(evaluation.columns(), row_view(datums@), assignments@) == Ok::<
                Seq<(u64, DatumView)>,
                UpdateProblem,
            >(assignments_view(pairs@)),
            Err(problem) => evaluated(evaluation.columns(), row_view(datums@), assignments@)
                == Err::<Seq<(u64, DatumView)>, UpdateProblem>(problem),
        },
{
    let mut pairs: Vec<(u64, Datum)> = Vec::new();
    let mut i: usize = 0;
    assert(assignments@.take(0) =~= Seq::empty());
    assert(assignments_view(pairs@) =~= Seq::empty());
    while i < assignments.len()
        invariant
            i <= assignments.len(),
            evaluated(evaluation.columns(), row_view(datums@), assignments@.take(i as int)) == Ok::<
                Seq<(u64, DatumView)>,
                UpdateProblem,
            >(assignments_view(pairs@)),
        decreases assignments.len() - i,
    {
        proof {
            assert(assignments@.take(i + 1).drop_last() =~= assignments@.take(i as int));
            assert(assignments@.take(i + 1).last() == assignments@[i as int]);
        }
        let ghost before = assignments_view(pairs@);
        let value = match evaluation.value(datums.as_slice(), &assignments[i].2) {
            Ok(value) => value,
            Err(error) => {
                proof {
                    lemma_evaluation_problem_stays(
                        evaluation.columns(),
                        row_view(datums@),
                        assignments@,
                        i + 1,
                    );
                }
                return Err(UpdateProblem::Evaluation(error));
            },
        };
        match coerce_value(&value, &assignments[i].1) {
            Ok(datum) => {
                pairs.push((assignments[i].0, datum));
                assert(assignments_view(pairs@) =~= before.push(
                    (assignments@[i as int].0, datum@),
                ));
            },
            Err(error) => {
                proof {
                    lemma_evaluation_problem_stays(
                        evaluation.columns(),
                        row_view(datums@),
                        assignments@,
                        i + 1,
                    );
                }
                return Err(UpdateProblem::Value { error, sql_type: assignments[i].1 });
            },
        }
        i = i + 1;
    }
    assert(assignments@.take(i as int) =~= assignments@);
    Ok(pairs)
}

/// The rows after the assignments, each under its key.
pub fn change_rows(
    evaluation: &DynamicExpressionEvaluation,
    rows: &Vec<(Key, Value)>,
    assignments: &Vec<(u64, SqlType, ScalarOp)>,
) -> (changed: Result<Vec<(Key, Value)>, UpdateProblem>)
    ensures
        match changed {
            Ok(pairs) => rows_changed(evaluation.columns(), pairs_view(rows@), assignments@) == Ok::<
                Seq<(Seq<u8>, Seq<u8>)>,
                UpdateProblem,
            >(pairs_view(pairs@)),
            Err(problem) => rows_changed(evaluation.columns(), pairs_view(rows@), assignments@)
                == Err::<Seq<(Seq<u8>, Seq<u8>)>, UpdateProblem>(problem),
        },
{
    let ghost all = pairs_view(rows@);
    let mut pairs: Vec<(Key, Value)> = Vec::new();
    let mut i: usize = 0;
    assert(all.take(0) =~= Seq::empty());
    assert(pairs_view(pairs@) =~= Seq::empty());
    while i < rows.len()
        invariant
            i <= rows.len(),
            all == pairs_view(rows@),
            rows_changed(evaluation.columns(), all.take(i as int), assignments@) == Ok::<
                Seq<(Seq<u8>, Seq<u8>)>,
                UpdateProblem,
            >(pairs_view(pairs@)),
        decreases rows.len() - i,
    {
        proof {
            assert(all.take(i + 1).drop_last() =~= all.take(i as int));
            assert(all.take(i + 1).last() == all[i as int]);
        }
        let datums = match rows[i].1.unpack() {
            Some(datums) => datums,
            None => Vec::new(),
        };
        assert(row_view(datums@) =~= datums_of(rows@[i as int].1@));
        let ghost before = pairs_view(pairs@);
        match evaluate_assignments(evaluation, &datums, assignments) {
            Ok(datums_at) => {
                let value = update_value(&rows[i].1, &datums_at);
                pairs.push((rows[i].0.copy(), value));
                assert(pairs_view(pairs@) =~= before.push((all[i as int].0, value@)));
            },
            Err(problem) => {
                proof {
                    lemma_row_problem_stays(evaluation.columns(), all, assignments@, i + 1);
                }
                return Err(problem);
            },
        }
        i = i + 1;
    }
    assert(all.take(i as int) =~= all);
    Ok(pairs)
}

/// Whether the error reports why the rows are not updated: an expression
/// without a value as the evaluator reports it, and a value that is no
/// value of its column as the planner reports such a value of an insert.
pub open spec fn update_reported(problem: UpdateProblem, reported: QueryError) -> bool {
    match problem {
        UpdateProblem::Evaluation(error) => error.reported_as(reported),
        UpdateProblem::Value { error, sql_type } => exists|planned: PlanError| #[trigger]
            problem_reported(InsertProblem::Value { error, sql_type }, planned) && reported
                == QueryError::of_plan_error(planned),
    }
}

/// What an update does to the data and what it answers. For every row of
/// the table each expression is evaluated for the row as it was, and its
/// value, as a value of its column, is put in the place of the datum at
/// the ordinal of the column; the answer is the number of rows. Where an
/// expression has no value for a row, or its value is no value of its
/// column, no row is changed and the answer is the error of the first such
/// row. Where there is no such table nothing is changed and the answer
/// says so.
pub open spec fn rows_updated(
    before: DataState,
    after: DataState,
    table_id: FullTableId,
    assignments: Seq<(u64, SqlType, ScalarOp)>,
    answers: Seq<QueryResult>,
) -> bool {
    match before.table(table_id) {
        Some(table) => match rows_changed(
            column_positions(before.definitions.table_columns(table_id.1)),
            table.rows(),
            assignments,
        ) {
            Ok(pairs) => {
                &&& answers == seq![
                    Ok::<QueryEvent, QueryError>(
                        QueryEvent::RecordsUpdated(table.records.len() as usize),
                    ),
                ]
                &&& after == before.with_rows(table_id, table.updated(pairs))
            },
            Err(problem) => {
                &&& after == before
                &&& answers.len() == 1
                &&& answers[0] matches Err(reported)
                &&& update_reported(problem, reported)
            },
        },
        None => no_such_table(table_id, answers) && after == before,
    }
}

/// Updates all rows of the table by the assignments.
pub fn update_rows(
    data_manager: &mut DataManager,
    table_id: &FullTableId,
    assignments: &Vec<(u64, SqlType, ScalarOp)>,
) -> (answers: Vec<QueryResult>)
    ensures
        rows_updated(old(data_manager)@, final(data_manager)@, *table_id, assignments@, answers@),
{
    let reads = match data_manager.full_scan(table_id) {
        Err(_) => {
            return answer_no_such_table(table_id);
        },
        Ok(reads) => reads,
    };
    let rows = reads.collect();
    let ghost table = old(data_manager)@.table(*table_id).unwrap();
    let numbered = data_manager.definitions().table_columns(table_id.1);
    let evaluation = DynamicExpressionEvaluation::new(positions_of(&numbered));
    let pairs = match change_rows(&evaluation, &rows, assignments) {
        Ok(pairs) => pairs,
        Err(problem) => {
            let reported = match problem {
                UpdateProblem::Evaluation(error) => error.to_query_error(),
                UpdateProblem::Value { error, sql_type } => {
                    let planned = report(InsertProblem::Value { error, sql_type });
                    QueryError::from_plan_error(planned)
                },
            };
            let mut answers: Vec<QueryResult> = Vec::new();
            answers.push(Err(reported));
            return answers;
        },
    };
    proof {
        lemma_changed_rows_keep_keys(evaluation.columns(), table.rows(), assignments@);
        assert forall|i: int| 0 <= i < pairs_view(pairs@).len() implies table.has_key(
            #[trigger] pairs_view(pairs@)[i].0,
        ) by {
            assert(spec_key(table.records[i].0) == table.rows()[i].0);
        }
        lemma_hits_all(table, pairs_view(pairs@));
    }
    match data_manager.update_in(table_id, pairs) {
        Ok(updated) => answer(QueryEvent::RecordsUpdated(updated)),
        Err(_) => answer_no_such_table(table_id),
    }
}

impl Datum {
    /// A copy of the datum.
    pub fn copy(&self) -> (copy: Datum)
        ensures
            copy@ == self@,
    {
        match self {
            Datum::Null => Datum::Null,
            Datum::Bool(b) => Datum::Bool(*b),
            Datum::Int16(v) => Datum::Int16(*v),
            Datum::Int32(v) => Datum::Int32(*v),
            Datum::Int64(v) => Datum::Int64(*v),
            Datum::UInt64(v) => Datum::UInt64(*v),
            Datum::Str(s) => Datum::Str(s.clone()),
        }
    }

    /// The text of the datum in a row of a result.
    pub fn to_text(&self) -> (text: String)
        ensures
            text@ == datum_text(self@),
    {
        match self {
            Datum::Null => "NULL".to_owned(),
            Datum::Bool(b) => if *b {
                "t".to_owned()
            } else {
                "f".to_owned()
            },
            Datum::Int16(v) => signed_decimal(*v as i64),
            Datum::Int32(v) => signed_decimal(*v as i64),
            Datum::Int64(v) => signed_decimal(*v),
            Datum::UInt64(v) => decimal(*v),
            Datum::Str(s) => s.clone(),
        }
    }
}

/// The texts of the datums of a row at the ordinals.
pub fn texts_of_row(value: &Value, ordinals: &Vec<u64>) -> (row: Vec<String>)
    ensures
        texts(row@) == row_texts(datums_of(value@), ordinals@),
{
    let datums = match value.unpack() {
        Some(datums) => datums,
        None => Vec::new(),
    };
    assert(datums_view(datums@) =~= datums_of(value@));
    let mut row: Vec<String> = Vec::new();
    let mut i: usize = 0;
    while i < ordinals.len()
        invariant
            i <= ordinals.len(),
            datums_view(datums@) == datums_of(value@),
            texts(row@) == row_texts(datums_of(value@), ordinals@).take(i as int),
        decreases ordinals.len() - i,
    {
        let ghost before = texts(row@);
        let ordinal = ordinals[i];
        let text = if ordinal < datums.len() as u64 {
            datums[ordinal as usize].to_text()
        } else {
            String::new()
        };
        row.push(text);
        i = i + 1;
        assert(texts(row@) =~= before.push(row_texts(datums_of(value@), ordinals@)[i - 1]));
        assert(texts(row@) =~= row_texts(datums_of(value@), ordinals@).take(i as int));
    }
    assert(row_texts(datums_of(value@), ordinals@).take(i as int) =~= row_texts(
        datums_of(value@),
        ordinals@,
    ));
    row
}

/// What a select answers: the description of the columns at the selected
/// ordinals, in the order of the ordinals; for each row of the table, in
/// the order of the keys, the texts of its datums at those ordinals; and
/// the number of rows.
pub open spec fn select_answered(
    state: DataState,
    table_id: FullTableId,
    ordinals: Seq<u64>,
    answers: Seq<QueryResult>,
) -> bool {
    match state.table(table_id) {
        Some(table) => {
            let columns = selected(state.definitions.table_columns(table_id.1), ordinals);
            let rows = table.rows();
            &&& answers.len() == rows.len() + 2
            &&& answers[0] matches Ok(QueryEvent::RowDescription(description))
            &&& description@ == described(
                columns.map_values(|column: (u64, ColumnDefinition)| column.1),
            )
            &&& forall|i: int|
                0 <= i < rows.len() ==> (#[trigger] answers[i + 1] matches Ok(
                    QueryEvent::DataRow(values),
                ) && texts(values@) == row_texts(
                    datums_of(rows[i].1),
                    columns.map_values(|column: (u64, ColumnDefinition)| column.0),
                ))
            &&& answers[rows.len() as int + 1] == Ok::<QueryEvent, QueryError>(
                QueryEvent::RecordsSelected(rows.len() as usize),
            )
        },
        None => no_such_table(table_id, answers),
    }
}

/// Reads the selected columns of all rows of the table.
pub fn select_rows(data_manager: &DataManager, input: &SelectInput) -> (answers: Vec<QueryResult>)
    ensures
        select_answered(data_manager@, input.table_id, input.selected_columns@, answers@),
{
    let reads = match data_manager.full_scan(&input.table_id) {
        Err(_) => {
            return answer_no_such_table(&input.table_id);
        },
        Ok(reads) => reads,
    };
    let rows = reads.collect();
    let numbered = data_manager.definitions().table_columns(input.table_id.1);
    let chosen = select_columns(&numbered, &input.selected_columns);
    let mut columns: Vec<ColumnDefinition> = Vec::new();
    let mut ordinals: Vec<u64> = Vec::new();
    let mut i: usize = 0;
    while i < chosen.len()
        invariant
            i <= chosen.len(),
            columns@ == chosen@.take(i as int).map_values(
                |column: (u64, ColumnDefinition)| column.1,
            ),
            ordinals@ == chosen@.take(i as int).map_values(
                |column: (u64, ColumnDefinition)| column.0,
            ),
        decreases chosen.len() - i,
    {
        columns.push(
            ColumnDefinition { name: chosen[i].1.name.clone(), sql_type: chosen[i].1.sql_type },
        );
        ordinals.push(chosen[i].0);
        i = i + 1;
        assert(columns@ =~= chosen@.take(i as int).map_values(
            |column: (u64, ColumnDefinition)| column.1,
        ));
        assert(ordinals@ =~= chosen@.take(i as int).map_values(
            |column: (u64, ColumnDefinition)| column.0,
        ));
    }
    assert(chosen@.take(i as int) =~= chosen@);
    let mut answers: Vec<QueryResult> = Vec::new();
    answers.push(Ok(QueryEvent::RowDescription(describe(columns))));
    let mut r: usize = 0;
    while r < rows.len()
        invariant
            r <= rows.len(),
            answers@.len() == r + 1,
            answers@[0] matches Ok(QueryEvent::RowDescription(description)) && description@
                == described(columns@),
            forall|k: int|
                0 <= k < r ==> (#[trigger] answers@[k + 1] matches Ok(QueryEvent::DataRow(values))
                    && texts(values@) == row_texts(datums_of(pairs_view(rows@)[k].1), ordinals@)),
        decreases rows.len() - r,
    {
        let values = texts_of_row(&rows[r].1, &ordinals);
        answers.push(Ok(QueryEvent::DataRow(values)));
        r = r + 1;
    }
    answers.push(Ok(QueryEvent::RecordsSelected(rows.len())));
    answers
}

/// The state after the schemas were dropped, one after the other.
pub open spec fn schemas_dropped(state: DataState, names: Seq<String>) -> DataState
    decreases names.len(),
{
    if names.len() == 0 {
        state
    } else {
        schemas_dropped(state, names.drop_last()).schema_dropped(names.last()@)
    }
}

/// What dropping schemas answers: for each name in its turn, that the
/// schema was dropped or that there is none.
pub open spec fn schemas_dropped_answers(state: DataState, names: Seq<String>) -> Seq<QueryResult>
    decreases names.len(),
{
    if names.len() == 0 {
        Seq::empty()
    } else {
        schemas_dropped_answers(state, names.drop_last()).push(
            if schemas_dropped(state, names.drop_last()).has_schema(names.last()@) {
                Ok(QueryEvent::SchemaDropped)
            } else {
                Err(QueryError::SchemaDoesNotExist(names.last()))
            },
        )
    }
}

/// The state after the tables were dropped, one after the other.
pub open spec fn tables_dropped(state: DataState, table_ids: Seq<FullTableId>) -> DataState
    decreases table_ids.len(),
{
    if table_ids.len() == 0 {
        state
    } else {
        tables_dropped(state, table_ids.drop_last()).table_dropped(table_ids.last())
    }
}

/// What executing a plan does to the data and what it answers.
pub open spec fn executed(
    before: DataState,
    after: DataState,
    plan: Plan,
    answers: Seq<QueryResult>,
) -> bool {
    match plan {
        Plan::CreateSchema { schema_name, if_not_exists } => {
            &&& after == before.schema_created(schema_name@)
            &&& answers == seq![
                if before.can_create_schema(schema_name@) || if_not_exists {
                    Ok::<QueryEvent, QueryError>(QueryEvent::SchemaCreated)
                } else {
                    Err::<QueryEvent, QueryError>(QueryError::SchemaAlreadyExists(schema_name))
                },
            ]
        },
        Plan::DropSchemas { schema_names, cascade } => {
            &&& after == schemas_dropped(before, schema_names@)
            &&& answers == schemas_dropped_answers(before, schema_names@)
        },
        Plan::CreateTable { schema_id, table_name, columns, if_not_exists } => {
            match before.definitions.schemata.record(schema_id) {
                Some(schema) => {
                    &&& after == before.table_created(schema.name, table_name@, columns@)
                    &&& answers == seq![
                        if before.can_create_table(schema.name, table_name@) || if_not_exists {
                            Ok::<QueryEvent, QueryError>(QueryEvent::TableCreated)
                        } else {
                            Err::<QueryEvent, QueryError>(
                                QueryError::TableAlreadyExists(table_name),
                            )
                        },
                    ]
                },
                None => {
                    &&& after == before
                    &&& answers.len() == 1
                    &&& answers[0] matches Err(QueryError::SchemaDoesNotExist(name))
                    &&& name@ == spec_decimal(schema_id as nat)
                },
            }
        },
        Plan::DropTables { table_ids, cascade } => {
            &&& after == tables_dropped(before, table_ids@)
            &&& answers.len() == table_ids@.len()
            &&& forall|i: int|
                0 <= i < table_ids@.len() ==> table_dropped_answered(
                    tables_dropped(before, table_ids@.take(i)),
                    table_ids@[i],
                    seq![#[trigger] answers[i]],
                )
        },
        Plan::Insert { table_id, rows } => match before.table(table_id) {
            Some(table) => {
                &&& answers == seq![
                    Ok::<QueryEvent, QueryError>(
                        QueryEvent::RecordsInserted(table.accepted(rows@.len()) as usize),
                    ),
                ]
                &&& after == before.with_rows(table_id, table.inserted(packed(rows@)))
            },
            None => no_such_table(table_id, answers) && after == before,
        },
        Plan::Update { table_id, assignments } => rows_updated(
            before,
            after,
            table_id,
            assignments@,
            answers,
        ),
        Plan::Delete(table_deletes) => rows_deleted(
            before,
            after,
            table_deletes.table_id,
            table_deletes.predicate,
            answers,
        ),
        Plan::Select(input) => {
            &&& after == before
            &&& select_answered(before, input.table_id, input.selected_columns@, answers)
        },
        Plan::NotProcessed(statement) => {
            &&& after == before
            &&& answers == seq![
                Ok::<QueryEvent, QueryError>(
                    if statement is SetVariable {
                        QueryEvent::VariableSet
                    } else {
                        QueryEvent::QueryComplete
                    },
                ),
            ]
        },
    }
}

/// What a plan does to the data is determined by the data and the plan:
/// two executions of one plan on the same data leave the same data and
/// give as many answers. So the data can be had again by executing the
/// same plans again in the same order.
pub proof fn lemma_execution_is_determined(
    before: DataState,
    plan: Plan,
    after: DataState,
    answers: Seq<QueryResult>,
    other_after: DataState,
    other_answers: Seq<QueryResult>,
)
    requires
        executed(before, after, plan, answers),
        executed(before, other_after, plan, other_answers),
    ensures
        after == other_after,
        answers.len() == other_answers.len(),
{
}

/// Executes plans on the data.
#[derive(Debug)]
pub struct QueryExecutor {}

impl QueryExecutor {
    pub fn new() -> QueryExecutor {
        QueryExecutor {  }
    }

    /// Drops the schemas, one after the other.
    fn drop_schemas(data_manager: &mut DataManager, schema_names: &Vec<String>) -> (answers: Vec<
        QueryResult,
    >)
        ensures
            final(data_manager)@ == schemas_dropped(old(data_manager)@, schema_names@),
            answers@ == schemas_dropped_answers(old(data_manager)@, schema_names@),
    {
        let mut answers: Vec<QueryResult> = Vec::new();
        let mut i: usize = 0;
        assert(schema_names@.take(0) =~= Seq::empty());
        while i < schema_names.len()
            invariant
                i <= schema_names.len(),
                data_manager@ == schemas_dropped(old(data_manager)@, schema_names@.take(i as int)),
                answers@ == schemas_dropped_answers(
                    old(data_manager)@,
                    schema_names@.take(i as int),
                ),
            decreases schema_names.len() - i,
        {
            proof {
                assert(schema_names@.take(i + 1).drop_last() =~= schema_names@.take(i as int));
            }
            match data_manager.drop_schema(schema_names[i].as_str()) {
                Some(_) => {
                    answers.push(Ok(QueryEvent::SchemaDropped));
                },
                None => {
                    answers.push(
                        Err(QueryError::schema_does_not_exist(schema_names[i].clone())),
                    );
                },
            }
            i = i + 1;
        }
        assert(schema_names@.take(i as int) =~= schema_names@);
        answers
    }

    /// Drops the tables, one after the other.
    fn drop_tables(data_manager: &mut DataManager, table_ids: &Vec<FullTableId>) -> (answers: Vec<
        QueryResult,
    >)
        ensures
            final(data_manager)@ == tables_dropped(old(data_manager)@, table_ids@),
            answers@.len() == table_ids@.len(),
            forall|i: int|
                0 <= i < table_ids@.len() ==> table_dropped_answered(
                    tables_dropped(old(data_manager)@, table_ids@.take(i)),
                    table_ids@[i],
                    seq![#[trigger] answers@[i]],
                ),
    {
        let mut answers: Vec<QueryResult> = Vec::new();
        let mut i: usize = 0;
        assert(table_ids@.take(0) =~= Seq::empty());
        while i < table_ids.len()
            invariant
                i <= table_ids.len(),
                answers@.len() == i,
                data_manager@ == tables_dropped(old(data_manager)@, table_ids@.take(i as int)),
                forall|k: int|
                    0 <= k < i ==> table_dropped_answered(
                        tables_dropped(old(data_manager)@, table_ids@.take(k)),
                        table_ids@[k],
                        seq![#[trigger] answers@[k]],
                    ),
            decreases table_ids.len() - i,
        {
            proof {
                assert(table_ids@.take(i + 1).drop_last() =~= table_ids@.take(i as int));
            }
            let ghost before = answers@;
            let mut command = DropTableCommand::new(table_ids[i]);
            let mut one = command.execute(data_manager);
            proof {
                assert(one@ =~= seq![one@[0]]);
            }
            match one.pop() {
                Some(result) => {
                    answers.push(result);
                },
                None => {},
            }
            i = i + 1;
        }
        assert(table_ids@.take(i as int) =~= table_ids@);
        answers
    }

    /// Executes the plan and answers with its events.
    pub fn execute(&self, plan: Plan, data_manager: &mut DataManager) -> (answers: Vec<QueryResult>)
        requires
            plan is CreateSchema ==> old(data_manager)@.definitions.catalogs.next_id < u64::MAX
                && old(data_manager)@.definitions.schemata.next_id < u64::MAX,
            plan is CreateTable ==> old(data_manager)@.definitions.tables.next_id < u64::MAX,
        ensures
            executed(old(data_manager)@, final(data_manager)@, plan, answers@),
    {
        match plan {
            Plan::CreateSchema { schema_name, if_not_exists } => {
                match data_manager.create_schema(schema_name.as_str()) {
                    Some(_) => answer(QueryEvent::SchemaCreated),
                    None => {
                        if if_not_exists {
                            answer(QueryEvent::SchemaCreated)
                        } else {
                            let mut answers: Vec<QueryResult> = Vec::new();
                            answers.push(Err(QueryError::schema_already_exists(schema_name)));
                            assert(answers@ =~= seq![
                                Err::<QueryEvent, QueryError>(
                                    QueryError::SchemaAlreadyExists(schema_name),
                                ),
                            ]);
                            answers
                        }
                    },
                }
            },
            Plan::DropSchemas { schema_names, cascade } => Self::drop_schemas(
                data_manager,
                &schema_names,
            ),
            Plan::CreateTable { schema_id, table_name, columns, if_not_exists } => {
                match data_manager.schema_name(schema_id) {
                    None => {
                        let mut answers: Vec<QueryResult> = Vec::new();
                        answers.push(Err(QueryError::schema_does_not_exist(decimal(schema_id))));
                        answers
                    },
                    Some(schema_name) => {
                        match data_manager.create_table(
                            schema_name.as_str(),
                            table_name.as_str(),
                            columns.as_slice(),
                        ) {
                            Some(_) => answer(QueryEvent::TableCreated),
                            None => {
                                if if_not_exists {
                                    answer(QueryEvent::TableCreated)
                                } else {
                                    let mut answers: Vec<QueryResult> = Vec::new();
                                    answers.push(Err(QueryError::table_already_exists(table_name)));
                                    assert(answers@ =~= seq![
                                        Err::<QueryEvent, QueryError>(
                                            QueryError::TableAlreadyExists(table_name),
                                        ),
                                    ]);
                                    answers
                                }
                            },
                        }
                    },
                }
            },
            Plan::DropTables { table_ids, cascade } => Self::drop_tables(data_manager, &table_ids),
            Plan::Insert { table_id, rows } => insert_rows(data_manager, &table_id, &rows),
            Plan::Update { table_id, assignments } => update_rows(
                data_manager,
                &table_id,
                &assignments,
            ),
            Plan::Delete(table_deletes) => {
                let command = DeleteCommand::new(table_deletes);
                command.execute(data_manager)
            },
            Plan::Select(input) => select_rows(data_manager, &input),
            Plan::NotProcessed(statement) => {
                match statement {
                    SessionStatement::SetVariable => answer(QueryEvent::VariableSet),
                    SessionStatement::Other => answer(QueryEvent::QueryComplete),
                }
            },
        }
    }
}

} // verus!
