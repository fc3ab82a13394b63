//! The session of one client: prepared statements, portals, and the answer
//! to each command.
//!
//! The session is kept for statements of any kind. For a command that
//! needs a statement parsed, planned or run, [`QueryEngine::work_for`]
//! says what is to be done, and [`QueryEngine::respond`] answers with what
//! came of it. For the statements of the parser, `QueryEngine::execute`
//! does both.

use crate::analyzer::DescriptionError;
use crate::metadata::ColumnDefinition;
use crate::name_map::NameMap;
use crate::protocol::{
    Command, Description, PlanError, PostgreSqlFormat, PostgreSqlValue, QueryError, QueryEvent,
    QueryResult,
};
use crate::sql_types::{PgType, SqlType};
use crate::text::{push_decimal, spec_decimal};
use vstd::prelude::*;
use vstd::string::StringExecFns;

verus! {

/// A statement that was parsed and typed, kept under a name.
#[derive(Debug, PartialEq, Eq)]
pub struct PreparedStatement<S> {
    pub stmt: S,
    pub param_types: Vec<PgType>,
    pub description: Description,
}

/// A prepared statement with its parameters bound.
#[derive(Debug, PartialEq, Eq)]
pub struct Portal<S> {
    pub statement_name: String,
    pub stmt: S,
    pub result_formats: Vec<PostgreSqlFormat>,
}

/// What a session remembers between commands.
#[derive(Debug)]
pub struct Session<S> {
    pub prepared_statements: NameMap<PreparedStatement<S>>,
    pub portals: NameMap<Portal<S>>,
}

/// What goes out to the client.
#[derive(Debug, PartialEq, Eq)]
pub enum Outgoing {
    Send(QueryResult),
    Flush,
}

/// What is to be done outside the session for a command.
#[derive(Debug, PartialEq, Eq)]
pub enum Work<'a, S> {
    /// Nothing.
    Nothing,
    /// Parse the text, plan the statement and find out its shape.
    Prepare { sql: &'a String },
    /// Parse the text, plan the statement and run it.
    Run { sql: &'a String },
    /// Plan the statement and run it.
    RunStatement { stmt: &'a S },
}

/// What came of preparing a statement.
#[derive(Debug, PartialEq, Eq)]
pub enum Prepared<S> {
    /// The text is no statement.
    SyntaxError(String),
    /// The statement cannot be planned.
    PlanErrors(Vec<PlanError>),
    /// A select, with the columns that it yields.
    Select { statement: S, columns: Vec<ColumnDefinition> },
    /// An insert, with the types of the columns of its table, or the
    /// reason why they are not known.
    Insert { statement: S, sql_types: Result<Vec<SqlType>, DescriptionError> },
    /// An update.
    Update { statement: S },
    /// A statement that sets a variable.
    SetVariable { statement: S },
    /// A statement of another kind.
    NotSupported,
}

/// What came of running a statement.
#[derive(Debug, PartialEq, Eq)]
pub enum Ran {
    /// The text is no statement.
    SyntaxError(String),
    /// The statement cannot be planned.
    PlanErrors(Vec<PlanError>),
    /// The statement was run, with these answers.
    Executed(Vec<QueryResult>),
}

/// What came of the work that a command asked for.
#[derive(Debug, PartialEq, Eq)]
pub enum Done<S> {
    Nothing,
    Prepared(Prepared<S>),
    Ran(Ran),
}

/// Why a prepared statement was not bound.
#[derive(Debug, Clone, PartialEq, Eq)]
pub enum BindError {
    /// The formats do not fit the parameters or the columns.
    ProtocolViolation(String),
    /// A parameter could not be decoded.
    InvalidParameterValue(String),
    /// The parameters could not be put into the statement.
    NotBound,
}

/// The formats of `n` values, from the formats that a bind message gives:
/// none stands for text throughout, one for that format throughout, and
/// any other number must be `n`.
pub open spec fn padded_formats(formats: Seq<PostgreSqlFormat>, n: nat) -> Option<
    Seq<PostgreSqlFormat>,
> {
    if formats.len() == 0 {
        Some(Seq::new(n, |i: int| PostgreSqlFormat::Text))
    } else if formats.len() == 1 {
        Some(Seq::new(n, |i: int| formats[0]))
    } else if formats.len() == n {
        Some(formats)
    } else {
        None
    }
}

/// The text that reports formats that do not fit.
pub open spec fn formats_mismatch_text(given: nat, wanted: nat) -> Seq<char> {
    "expected "@ + spec_decimal(given) + " field format specifiers, but got "@ + spec_decimal(
        wanted,
    )
}

/// The text that reports a bind message with the wrong number of parameters.
pub open spec fn params_mismatch_text(name: Seq<char>, actual: nat, expected: nat) -> Seq<char> {
    "Bind message supplies "@ + spec_decimal(actual)
        + " parameters, but prepared statement \""@ + name + "\" requires "@ + spec_decimal(
        expected,
    )
}

/// The text that reports that there are not as many parameters as the
/// prepared statement has parameter types.
pub open spec fn count_mismatch_text(actual: nat, expected: nat) -> Seq<char> {
    "Bind message supplies "@ + spec_decimal(actual)
        + " parameters, but the prepared statement requires "@ + spec_decimal(expected)
}

/// Pads the formats of a bind message to `param_len` values.
pub fn pad_formats(formats: &[PostgreSqlFormat], param_len: usize) -> (padded: Result<
    Vec<PostgreSqlFormat>,
    String,
>)
    ensures
        match padded {
            Ok(padded) => padded_formats(formats@, param_len as nat) == Some(padded@),
            Err(message) => padded_formats(formats@, param_len as nat) is None && message@
                == formats_mismatch_text(formats@.len(), param_len as nat),
        },
{
    if formats.len() == 0 || formats.len() == 1 {
        let fill = if formats.len() == 0 {
            PostgreSqlFormat::Text
        } else {
            formats[0]
        };
        let mut padded: Vec<PostgreSqlFormat> = Vec::new();
        let mut i: usize = 0;
        while i < param_len
            invariant
                i <= param_len,
                padded@ == Seq::new(i as nat, |j: int| fill),
            decreases param_len - i,
        {
            padded.push(fill);
            i = i + 1;
            assert(padded@ =~= Seq::new(i as nat, |j: int| fill));
        }
        assert(padded@ =~= padded_formats(formats@, param_len as nat).unwrap());
        Ok(padded)
    } else if formats.len() == param_len {
        let mut padded: Vec<PostgreSqlFormat> = Vec::new();
        let mut i: usize = 0;
        while i < formats.len()
            invariant
                i <= formats.len(),
                padded@ == formats@.subrange(0, i as int),
            decreases formats.len() - i,
        {
            padded.push(formats[i]);
            i = i + 1;
            assert(padded@ =~= formats@.subrange(0, i as int));
        }
        assert(padded@ =~= formats@);
        Ok(padded)
    } else {
        let mut message = String::new();
        message.append("expected ");
        push_decimal(&mut message, formats.len() as u64);
        message.append(" field format specifiers, but got ");
        push_decimal(&mut message, param_len as u64);
        assert(message@ =~= formats_mismatch_text(formats@.len(), param_len as nat));
        Err(message)
    }
}

/// The name and the wire type of each column.
pub open spec fn described(columns: Seq<ColumnDefinition>) -> Seq<(String, PgType)> {
    columns.map_values(|column: ColumnDefinition| (column.name, column.sql_type.pg_type_spec()))
}

/// The wire types of column types.
pub open spec fn wire_types(sql_types: Seq<SqlType>) -> Seq<PgType> {
    sql_types.map_values(|sql_type: SqlType| sql_type.pg_type_spec())
}

/// Describes the columns of a result: each with its name and wire type.
pub fn describe(columns: Vec<ColumnDefinition>) -> (description: Description)
    ensures
        description@ == described(columns@),
{
    let mut columns = columns;
    let ghost all = columns@;
    let mut reversed: Vec<(String, PgType)> = Vec::new();
    while columns.len() > 0
        invariant
            columns@.len() <= all.len(),
            columns@ == all.subrange(0, columns@.len() as int),
            reversed@.len() == all.len() - columns@.len(),
            forall|i: int|
                0 <= i < reversed@.len() ==> #[trigger] reversed@[i] == described(all)[all.len()
                    - 1 - i],
        decreases columns.len(),
    {
        let ghost before = columns@;
        match columns.pop() {
            Some(column) => {
                let pg_type = column.sql_type.pg_type();
                reversed.push((column.name, pg_type));
                assert(columns@ =~= all.subrange(0, columns@.len() as int));
            },
            None => {},
        }
    }
    let mut description: Vec<(String, PgType)> = Vec::new();
    while reversed.len() > 0
        invariant
            reversed@.len() + description@.len() == all.len(),
            forall|i: int|
                0 <= i < reversed@.len() ==> #[trigger] reversed@[i] == described(all)[all.len()
                    - 1 - i],
            description@ == described(all).subrange(0, description@.len() as int),
        decreases reversed.len(),
    {
        match reversed.pop() {
            Some(column) => {
                description.push(column);
                assert(description@ =~= described(all).subrange(0, description@.len() as int));
            },
            None => {},
        }
    }
    assert(description@ =~= described(all));
    description
}

/// The wire types of the columns of a table, in order.
pub fn param_types_of(sql_types: &Vec<SqlType>) -> (param_types: Vec<PgType>)
    ensures
        param_types@ == wire_types(sql_types@),
{
    let mut param_types: Vec<PgType> = Vec::new();
    let mut i: usize = 0;
    while i < sql_types.len()
        invariant
            i <= sql_types.len(),
            param_types@ == wire_types(sql_types@).subrange(0, i as int),
        decreases sql_types.len() - i,
    {
        param_types.push(sql_types[i].pg_type());
        i = i + 1;
        assert(param_types@ =~= wire_types(sql_types@).subrange(0, i as int));
    }
    assert(param_types@ =~= wire_types(sql_types@));
    param_types
}

impl<S> PreparedStatement<S> {
    pub fn new(stmt: S, param_types: Vec<PgType>, description: Description) -> (prepared:
        PreparedStatement<S>)
        ensures
            prepared == (PreparedStatement { stmt, param_types, description }),
    {
        PreparedStatement { stmt, param_types, description }
    }

    pub fn stmt(&self) -> (stmt: &S)
        ensures
            *stmt == self.stmt,
    {
        &self.stmt
    }

    pub fn param_types(&self) -> (param_types: &Vec<PgType>)
        ensures
            *param_types == self.param_types,
    {
        &self.param_types
    }

    pub fn description(&self) -> (description: &Description)
        ensures
            *description == self.description,
    {
        &self.description
    }
}

impl<S> Portal<S> {
    pub fn stmt(&self) -> (stmt: &S)
        ensures
            *stmt == self.stmt,
    {
        &self.stmt
    }
}

/// The number of parameters that are decoded: as many as have a raw
/// value, a type and a format.
pub open spec fn decoded_len(types: nat, formats: nat, raw: nat) -> nat {
    if types <= formats && types <= raw {
        types
    } else if formats <= raw {
        formats
    } else {
        raw
    }
}

/// Whether `value` is a parameter as the decoder made it: null for a
/// parameter without a raw value, else a value that the decoder gave for
/// its type, its format and its bytes.
pub open spec fn decoded_as<D: Fn(PgType, PostgreSqlFormat, &Vec<u8>) -> Result<
    PostgreSqlValue,
    String,
>>(
    decode: D,
    pg_type: PgType,
    format: PostgreSqlFormat,
    raw: Option<Vec<u8>>,
    value: PostgreSqlValue,
) -> bool {
    match raw {
        None => value == PostgreSqlValue::Null,
        Some(bytes) => decode.ensures((pg_type, format, &bytes), Ok(value)),
    }
}

/// Whether the decoder refused a parameter with the message.
pub open spec fn refused_with<D: Fn(PgType, PostgreSqlFormat, &Vec<u8>) -> Result<
    PostgreSqlValue,
    String,
>>(
    decode: D,
    pg_type: PgType,
    format: PostgreSqlFormat,
    raw: Option<Vec<u8>>,
    message: String,
) -> bool {
    match raw {
        None => false,
        Some(bytes) => decode.ensures((pg_type, format, &bytes), Err(message)),
    }
}

/// Whether `params` are the parameters, each decoded in its turn.
pub open spec fn all_decoded<D: Fn(PgType, PostgreSqlFormat, &Vec<u8>) -> Result<
    PostgreSqlValue,
    String,
>>(
    decode: D,
    types: Seq<PgType>,
    formats: Seq<PostgreSqlFormat>,
    raw: Seq<Option<Vec<u8>>>,
    params: Seq<PostgreSqlValue>,
) -> bool {
    &&& params.len() == decoded_len(types.len(), formats.len(), raw.len())
    &&& forall|i: int|
        0 <= i < params.len() ==> decoded_as(decode, types[i], formats[i], raw[i], #[trigger] params[i])
}

/// Whether the decoder refused a parameter with the message after it had
/// decoded all parameters before that one.
pub open spec fn first_refused<D: Fn(PgType, PostgreSqlFormat, &Vec<u8>) -> Result<
    PostgreSqlValue,
    String,
>>(
    decode: D,
    types: Seq<PgType>,
    formats: Seq<PostgreSqlFormat>,
    raw: Seq<Option<Vec<u8>>>,
    message: String,
) -> bool {
    exists|params: Seq<PostgreSqlValue>|
        {
            &&& params.len() < decoded_len(types.len(), formats.len(), raw.len())
            &&& forall|i: int|
                0 <= i < params.len() ==> decoded_as(
                    decode,
                    types[i],
                    formats[i],
                    raw[i],
                    #[trigger] params[i],
                )
            &&& refused_with(
                decode,
                types[params.len() as int],
                formats[params.len() as int],
                raw[params.len() as int],
                message,
            )
        }
}

/// Decodes the parameters of a bind message in order, each with its type
/// and its format, and stops at the first that the decoder refuses.
pub fn decode_params<D: Fn(PgType, PostgreSqlFormat, &Vec<u8>) -> Result<PostgreSqlValue, String>>(
    raw_params: &[Option<Vec<u8>>],
    param_types: &Vec<PgType>,
    param_formats: &Vec<PostgreSqlFormat>,
    decode: &D,
) -> (decoded: Result<Vec<PostgreSqlValue>, String>)
    requires
        forall|pg_type: PgType, format: PostgreSqlFormat, bytes: &Vec<u8>|
            decode.requires((pg_type, format, bytes)),
    ensures
        match decoded {
            Ok(params) => all_decoded(
                *decode,
                param_types@,
                param_formats@,
                raw_params@,
                params@,
            ),
            Err(message) => first_refused(
                *decode,
                param_types@,
                param_formats@,
                raw_params@,
                message,
            ),
        },
{
    let mut n = param_types.len();
    if param_formats.len() < n {
        n = param_formats.len();
    }
    if raw_params.len() < n {
        n = raw_params.len();
    }
    let mut params: Vec<PostgreSqlValue> = Vec::new();
    let mut i: usize = 0;
    while i < n
        invariant
            i <= n,
            n == decoded_len(param_types@.len(), param_formats@.len(), raw_params@.len()),
            params@.len() == i,
            forall|pg_type: PgType, format: PostgreSqlFormat, bytes: &Vec<u8>|
                decode.requires((pg_type, format, bytes)),
            forall|j: int|
                0 <= j < i ==> decoded_as(
                    *decode,
                    param_types@[j],
                    param_formats@[j],
                    raw_params@[j],
                    #[trigger] params@[j],
                ),
        decreases n - i,
    {
        match &raw_params[i] {
            None => {
                params.push(PostgreSqlValue::Null);
            },
            Some(bytes) => {
                match decode(param_types[i], param_formats[i], bytes) {
                    Ok(param) => {
                        params.push(param);
                    },
                    Err(message) => {
                        return Err(message);
                    },
                }
            },
        }
        i = i + 1;
    }
    Ok(params)
}

/// Whether `bound` is an outcome of binding the prepared statement: what
/// [`bind_prepared_statement_to_portal`] returns, for some answers of the
/// decoder and of the binder. Parameters that are not as many as the
/// statement has parameter types are refused as a violation of the
/// protocol.
pub open spec fn bound_as<
    S,
    D: Fn(PgType, PostgreSqlFormat, &Vec<u8>) -> Result<PostgreSqlValue, String>,
    B: Fn(&S, &Vec<PostgreSqlValue>) -> Result<S, ()>,
>(
    prepared: PreparedStatement<S>,
    param_formats: Seq<PostgreSqlFormat>,
    raw_params: Seq<Option<Vec<u8>>>,
    result_formats: Seq<PostgreSqlFormat>,
    decode: D,
    bind: B,
    bound: Result<(S, Vec<PostgreSqlFormat>), BindError>,
) -> bool {
    if raw_params.len() != prepared.param_types@.len() {
        bound matches Err(BindError::ProtocolViolation(message)) && message@
            == count_mismatch_text(raw_params.len(), prepared.param_types@.len())
    } else {
        bound_with_all_parameters(
            prepared,
            param_formats,
            raw_params,
            result_formats,
            decode,
            bind,
            bound,
        )
    }
}

/// Whether `bound` is an outcome of binding the prepared statement to as
/// many parameters as it has parameter types.
pub open spec fn bound_with_all_parameters<
    S,
    D: Fn(PgType, PostgreSqlFormat, &Vec<u8>) -> Result<PostgreSqlValue, String>,
    B: Fn(&S, &Vec<PostgreSqlValue>) -> Result<S, ()>,
>(
    prepared: PreparedStatement<S>,
    param_formats: Seq<PostgreSqlFormat>,
    raw_params: Seq<Option<Vec<u8>>>,
    result_formats: Seq<PostgreSqlFormat>,
    decode: D,
    bind: B,
    bound: Result<(S, Vec<PostgreSqlFormat>), BindError>,
) -> bool {
    let formats = padded_formats(param_formats, raw_params.len());
    let columns = padded_formats(result_formats, prepared.description@.len());
    match bound {
        Ok((stmt, result_formats)) => {
            &&& formats is Some
            &&& exists|params: Vec<PostgreSqlValue>|
                all_decoded(decode, prepared.param_types@, formats.unwrap(), raw_params, params@)
                    && #[trigger] bind.ensures((&prepared.stmt, &params), Ok(stmt))
            &&& columns == Some(result_formats@)
        },
        Err(BindError::ProtocolViolation(message)) => {
            ||| formats is None && message@ == formats_mismatch_text(
                param_formats.len(),
                raw_params.len(),
            )
            ||| {
                &&& formats is Some
                &&& columns is None
                &&& message@ == formats_mismatch_text(
                    result_formats.len(),
                    prepared.description@.len(),
                )
                &&& exists|params: Vec<PostgreSqlValue>, stmt: S|
                    all_decoded(
                        decode,
                        prepared.param_types@,
                        formats.unwrap(),
                        raw_params,
                        params@,
                    ) && #[trigger] bind.ensures((&prepared.stmt, &params), Ok(stmt))
            }
        },
        Err(BindError::InvalidParameterValue(message)) => {
            &&& formats is Some
            &&& first_refused(decode, prepared.param_types@, formats.unwrap(), raw_params, message)
        },
        Err(BindError::NotBound) => {
            &&& formats is Some
            &&& exists|params: Vec<PostgreSqlValue>|
                all_decoded(decode, prepared.param_types@, formats.unwrap(), raw_params, params@)
                    && #[trigger] bind.ensures((&prepared.stmt, &params), Err(()))
        },
    }
}

/// Binds a prepared statement: refuses parameters that are not as many as
/// the statement has parameter types, pads the parameter formats, decodes
/// the parameters, lets the binder put them into the statement, and pads
/// the result formats to the columns of the statement's description.
pub fn bind_prepared_statement_to_portal<
    S,
    D: Fn(PgType, PostgreSqlFormat, &Vec<u8>) -> Result<PostgreSqlValue, String>,
    B: Fn(&S, &Vec<PostgreSqlValue>) -> Result<S, ()>,
>(
    prepared_statement: &PreparedStatement<S>,
    param_formats: &[PostgreSqlFormat],
    raw_params: &[Option<Vec<u8>>],
    result_formats: &[PostgreSqlFormat],
    decode: &D,
    bind: &B,
) -> (bound: Result<(S, Vec<PostgreSqlFormat>), BindError>)
    requires
        forall|pg_type: PgType, format: PostgreSqlFormat, bytes: &Vec<u8>|
            decode.requires((pg_type, format, bytes)),
        forall|stmt: &S, params: &Vec<PostgreSqlValue>| bind.requires((stmt, params)),
    ensures
        bound_as(
            *prepared_statement,
            param_formats@,
            raw_params@,
            result_formats@,
            *decode,
            *bind,
            bound,
        ),
{
    if raw_params.len() != prepared_statement.param_types.len() {
        let mut message = String::new();
        message.append("Bind message supplies ");
        push_decimal(&mut message, raw_params.len() as u64);
        message.append(" parameters, but the prepared statement requires ");
        push_decimal(&mut message, prepared_statement.param_types.len() as u64);
        assert(message@ =~= count_mismatch_text(
            raw_params@.len(),
            prepared_statement.param_types@.len(),
        ));
        return Err(BindError::ProtocolViolation(message));
    }
    let ghost old_param_formats = param_formats@;
    let param_formats = match pad_formats(param_formats, raw_params.len()) {
        Ok(param_formats) => param_formats,
        Err(message) => {
            return Err(BindError::ProtocolViolation(message));
        },
    };
    let params = match decode_params(
        raw_params,
        &prepared_statement.param_types,
        &param_formats,
        decode,
    ) {
        Ok(params) => params,
        Err(message) => {
            return Err(BindError::InvalidParameterValue(message));
        },
    };
    let outcome = bind(&prepared_statement.stmt, &params);
    assert(bind.ensures((&prepared_statement.stmt, &params), outcome));
    let new_stmt = match outcome {
        Ok(new_stmt) => new_stmt,
        Err(failure) => {
            assert(outcome == Err::<S, ()>(()));
            return Err(BindError::NotBound);
        },
    };
    assert(bind.ensures((&prepared_statement.stmt, &params), Ok(new_stmt)));
    let ghost given_results = result_formats@;
    let ghost given_params = old_param_formats;
    let ghost bound_stmt = new_stmt;
    let ghost padded = param_formats@;
    let bound = match pad_formats(result_formats, prepared_statement.description.len()) {
        Ok(result_formats) => Ok((new_stmt, result_formats)),
        Err(message) => Err(BindError::ProtocolViolation(message)),
    };
    proof {
        assert(padded_formats(given_params, raw_params@.len()) == Some(padded));
        match bound {
            Ok(_) => {
                assert(all_decoded(
                    *decode,
                    prepared_statement.param_types@,
                    padded,
                    raw_params@,
                    params@,
                ) && bind.ensures((&prepared_statement.stmt, &params), Ok(bound_stmt)));
                assert(bound matches Ok((stmt, formats)) && stmt == bound_stmt && padded_formats(
                    given_results,
                    prepared_statement.description@.len(),
                ) == Some(formats@));
                assert(bound_with_all_parameters(
                    *prepared_statement,
                    given_params,
                    raw_params@,
                    given_results,
                    *decode,
                    *bind,
                    bound,
                ));
            },
            Err(_) => {
                assert(all_decoded(
                    *decode,
                    prepared_statement.param_types@,
                    padded,
                    raw_params@,
                    params@,
                ) && bind.ensures((&prepared_statement.stmt, &params), Ok(bound_stmt)));
                assert(bound_with_all_parameters(
                    *prepared_statement,
                    given_params,
                    raw_params@,
                    given_results,
                    *decode,
                    *bind,
                    bound,
                ));
            },
        }
    }
    bound
}

/// Each answer as something to send.
pub open spec fn sent(results: Seq<QueryResult>) -> Seq<Outgoing> {
    results.map_values(|result: QueryResult| Outgoing::Send(result))
}

/// Each planning error as the error to send for it.
pub open spec fn plan_errors_sent(errors: Seq<PlanError>) -> Seq<Outgoing> {
    errors.map_values(|error: PlanError| Outgoing::Send(Err(QueryError::of_plan_error(error))))
}

/// The elements of a vector in reverse order.
pub fn reversed<T>(items: Vec<T>) -> (reversed: Vec<T>)
    ensures
        reversed@ == items@.reverse(),
{
    let mut items = items;
    let ghost all = items@;
    let mut reversed: Vec<T> = Vec::new();
    while items.len() > 0
        invariant
            items@.len() + reversed@.len() == all.len(),
            items@ == all.subrange(0, items@.len() as int),
            reversed@ == all.subrange(items@.len() as int, all.len() as int).reverse(),
        decreases items.len(),
    {
        match items.pop() {
            Some(item) => {
                reversed.push(item);
                assert(items@ =~= all.subrange(0, items@.len() as int));
                assert(reversed@ =~= all.subrange(items@.len() as int, all.len() as int).reverse());
            },
            None => {},
        }
    }
    assert(reversed@ =~= all.reverse());
    reversed
}

/// Appends each answer, in order, as something to send.
pub fn send_all(out: &mut Vec<Outgoing>, results: Vec<QueryResult>)
    ensures
        final(out)@ == old(out)@ + sent(results@),
{
    let ghost all = results@;
    let mut rest = reversed(results);
    assert(old(out)@ + sent(all).subrange(0, 0) =~= old(out)@);
    while rest.len() > 0
        invariant
            rest@.len() <= all.len(),
            rest@ == all.reverse().subrange(0, rest@.len() as int),
            out@ == old(out)@ + sent(all).subrange(0, all.len() - rest@.len()),
        decreases rest.len(),
    {
        match rest.pop() {
            Some(result) => {
                out.push(Outgoing::Send(result));
                assert(rest@ =~= all.reverse().subrange(0, rest@.len() as int));
                assert(out@ =~= old(out)@ + sent(all).subrange(0, all.len() - rest@.len()));
            },
            None => {},
        }
    }
    assert(sent(all).subrange(0, all.len() as int) =~= sent(all));
}

/// Appends, for each planning error in order, the error to send for it.
pub fn send_plan_errors(out: &mut Vec<Outgoing>, errors: Vec<PlanError>)
    ensures
        final(out)@ == old(out)@ + plan_errors_sent(errors@),
{
    let ghost all = errors@;
    let mut rest = reversed(errors);
    assert(old(out)@ + plan_errors_sent(all).subrange(0, 0) =~= old(out)@);
    while rest.len() > 0
        invariant
            rest@.len() <= all.len(),
            rest@ == all.reverse().subrange(0, rest@.len() as int),
            out@ == old(out)@ + plan_errors_sent(all).subrange(0, all.len() - rest@.len()),
        decreases rest.len(),
    {
        match rest.pop() {
            Some(error) => {
                out.push(Outgoing::Send(Err(QueryError::from_plan_error(error))));
                assert(rest@ =~= all.reverse().subrange(0, rest@.len() as int));
                assert(out@ =~= old(out)@ + plan_errors_sent(all).subrange(
                    0,
                    all.len() - rest@.len(),
                ));
            },
            None => {},
        }
    }
    assert(plan_errors_sent(all).subrange(0, all.len() as int) =~= plan_errors_sent(all));
}

/// A copy of the wire types.
pub fn copy_types(types: &Vec<PgType>) -> (copy: Vec<PgType>)
    ensures
        copy@ == types@,
{
    let mut copy: Vec<PgType> = Vec::new();
    let mut i: usize = 0;
    while i < types.len()
        invariant
            i <= types.len(),
            copy@ == types@.subrange(0, i as int),
        decreases types.len() - i,
    {
        copy.push(types[i]);
        i = i + 1;
        assert(copy@ =~= types@.subrange(0, i as int));
    }
    assert(copy@ =~= types@);
    copy
}

/// A copy of the description.
pub fn copy_description(description: &Description) -> (copy: Description)
    ensures
        copy@ == description@,
{
    let mut copy: Vec<(String, PgType)> = Vec::new();
    let mut i: usize = 0;
    while i < description.len()
        invariant
            i <= description.len(),
            copy@ == description@.subrange(0, i as int),
        decreases description.len() - i,
    {
        copy.push((description[i].0.clone(), description[i].1));
        i = i + 1;
        assert(copy@ =~= description@.subrange(0, i as int));
    }
    assert(copy@ =~= description@);
    copy
}

/// The one thing to send that ends the answer to a query.
pub open spec fn query_complete() -> Outgoing {
    Outgoing::Send(Ok(QueryEvent::QueryComplete))
}

/// Whether `new` is `old` with a statement kept under the name.
pub open spec fn kept_statement<S>(
    old: Map<Seq<char>, PreparedStatement<S>>,
    new: Map<Seq<char>, PreparedStatement<S>>,
    name: Seq<char>,
    stmt: S,
    param_types: Seq<PgType>,
    description: Seq<(String, PgType)>,
) -> bool {
    &&& new.contains_key(name)
    &&& new[name].stmt == stmt
    &&& new[name].param_types@ == param_types
    &&& new[name].description@ == description
    &&& new.remove(name) == old.remove(name)
}

/// The answer to `DescribeStatement`.
pub open spec fn describe_answer<S>(
    statements: Map<Seq<char>, PreparedStatement<S>>,
    name: String,
    out: Seq<Outgoing>,
) -> bool {
    if statements.contains_key(name@) {
        &&& out.len() == 2
        &&& out[0] matches Outgoing::Send(Ok(QueryEvent::StatementParameters(types)))
        &&& types@ == statements[name@].param_types@
        &&& out[1] matches Outgoing::Send(Ok(QueryEvent::StatementDescription(description)))
        &&& description@ == statements[name@].description@
    } else {
        out == seq![Outgoing::Send(Err(QueryError::PreparedStatementDoesNotExist(name)))]
    }
}

/// The answer to `Query`.
pub open spec fn query_answer<S>(done: Done<S>, out: Seq<Outgoing>) -> bool {
    match done {
        Done::Ran(Ran::SyntaxError(message)) => out == seq![
            Outgoing::Send(Err(QueryError::SyntaxError(message))),
            query_complete(),
        ],
        Done::Ran(Ran::PlanErrors(errors)) => out == plan_errors_sent(errors@).push(
            query_complete(),
        ),
        Done::Ran(Ran::Executed(results)) => out == sent(results@).push(query_complete()),
        _ => out == seq![query_complete()],
    }
}

/// The answer to `Execute`.
pub open spec fn execute_answer<S>(
    portals: Map<Seq<char>, Portal<S>>,
    portal_name: String,
    done: Done<S>,
    out: Seq<Outgoing>,
) -> bool {
    if portals.contains_key(portal_name@) {
        match done {
            Done::Ran(Ran::Executed(results)) => out == sent(results@).push(query_complete()),
            _ => out == seq![query_complete()],
        }
    } else {
        out == seq![
            Outgoing::Send(Err(QueryError::PortalDoesNotExist(portal_name))),
            query_complete(),
        ]
    }
}

/// The answer to `Parse`, and what the session keeps.
pub open spec fn parse_answer<S>(
    old: Map<Seq<char>, PreparedStatement<S>>,
    new: Map<Seq<char>, PreparedStatement<S>>,
    statement_name: String,
    param_types: Vec<PgType>,
    done: Done<S>,
    out: Seq<Outgoing>,
) -> bool {
    let parse_complete = seq![Outgoing::Send(Ok(QueryEvent::ParseComplete))];
    match done {
        Done::Prepared(Prepared::SyntaxError(message)) => {
            &&& new == old
            &&& out == seq![Outgoing::Send(Err(QueryError::SyntaxError(message)))]
        },
        Done::Prepared(Prepared::PlanErrors(errors)) => {
            &&& new == old
            &&& out == plan_errors_sent(errors@)
        },
        Done::Prepared(Prepared::Select { statement, columns }) => {
            &&& kept_statement(
                old,
                new,
                statement_name@,
                statement,
                param_types@,
                described(columns@),
            )
            &&& out == parse_complete
        },
        Done::Prepared(Prepared::Insert { statement, sql_types: Ok(sql_types) }) => {
            &&& kept_statement(
                old,
                new,
                statement_name@,
                statement,
                wire_types(sql_types@),
                Seq::empty(),
            )
            &&& out == parse_complete
        },
        Done::Prepared(
            Prepared::Insert { statement, sql_types: Err(DescriptionError::TableDoesNotExist(table)) },
        ) => {
            &&& new == old
            &&& out == seq![Outgoing::Send(Err(QueryError::TableDoesNotExist(table)))]
        },
        Done::Prepared(
            Prepared::Insert {
                statement,
                sql_types: Err(DescriptionError::SchemaDoesNotExist(schema)),
            },
        ) => {
            &&& new == old
            &&& out == seq![Outgoing::Send(Err(QueryError::SchemaDoesNotExist(schema)))]
        },
        Done::Prepared(Prepared::Update { statement }) => {
            &&& kept_statement(old, new, statement_name@, statement, param_types@, Seq::empty())
            &&& out == parse_complete
        },
        Done::Prepared(Prepared::SetVariable { statement }) => {
            &&& kept_statement(old, new, statement_name@, statement, param_types@, Seq::empty())
            &&& out == parse_complete
        },
        _ => {
            &&& new == old
            &&& out == Seq::<Outgoing>::empty()
        },
    }
}

/// The answer to `Bind` for one outcome of the binding, and what the
/// session keeps.
pub open spec fn bound_answer<S>(
    old: Map<Seq<char>, Portal<S>>,
    new: Map<Seq<char>, Portal<S>>,
    portal_name: String,
    statement_name: String,
    bound: Result<(S, Vec<PostgreSqlFormat>), BindError>,
    out: Seq<Outgoing>,
) -> bool {
    match bound {
        Ok((stmt, result_formats)) => {
            &&& new == old.insert(portal_name@, Portal { statement_name, stmt, result_formats })
            &&& out == seq![Outgoing::Send(Ok(QueryEvent::BindComplete))]
        },
        Err(BindError::ProtocolViolation(message)) => {
            &&& new == old
            &&& out == seq![Outgoing::Send(Err(QueryError::ProtocolViolation(message)))]
        },
        Err(BindError::InvalidParameterValue(message)) => {
            &&& new == old
            &&& out == seq![Outgoing::Send(Err(QueryError::InvalidParameterValue(message)))]
        },
        Err(BindError::NotBound) => {
            &&& new == old
            &&& out == Seq::<Outgoing>::empty()
        },
    }
}

/// The answer to `Bind`, and what the session keeps.
pub open spec fn bind_answer<
    S,
    D: Fn(PgType, PostgreSqlFormat, &Vec<u8>) -> Result<PostgreSqlValue, String>,
    B: Fn(&S, &Vec<PostgreSqlValue>) -> Result<S, ()>,
>(
    statements: Map<Seq<char>, PreparedStatement<S>>,
    old: Map<Seq<char>, Portal<S>>,
    new: Map<Seq<char>, Portal<S>>,
    portal_name: String,
    statement_name: String,
    param_formats: Seq<PostgreSqlFormat>,
    raw_params: Seq<Option<Vec<u8>>>,
    result_formats: Seq<PostgreSqlFormat>,
    decode: D,
    bind: B,
    out: Seq<Outgoing>,
) -> bool {
    if !statements.contains_key(statement_name@) {
        &&& new == old
        &&& out == seq![Outgoing::Send(Err(QueryError::PreparedStatementDoesNotExist(statement_name)))]
    } else if statements[statement_name@].param_types@.len() != raw_params.len() {
        &&& new == old
        &&& out.len() == 1
        &&& out[0] matches Outgoing::Send(Err(QueryError::ProtocolViolation(message)))
        &&& message@ == params_mismatch_text(
            statement_name@,
            raw_params.len(),
            statements[statement_name@].param_types@.len(),
        )
    } else {
        exists|bound: Result<(S, Vec<PostgreSqlFormat>), BindError>|
            #[trigger] bound_as(
                statements[statement_name@],
                param_formats,
                raw_params,
                result_formats,
                decode,
                bind,
                bound,
            ) && bound_answer(old, new, portal_name, statement_name, bound, out)
    }
}

/// The session of one client.
#[derive(Debug)]
pub struct QueryEngine<S> {
    session: Session<S>,
}

impl<S> QueryEngine<S> {
    /// The prepared statements of the session, by name.
    pub closed spec fn statements(&self) -> Map<Seq<char>, PreparedStatement<S>> {
        self.session.prepared_statements@
    }

    /// The portals of the session, by name.
    pub closed spec fn portals(&self) -> Map<Seq<char>, Portal<S>> {
        self.session.portals@
    }

    /// What is to be done outside the session for the command.
    pub open spec fn work_spec(&self, command: Command) -> Work<'_, S> {
        match command {
            Command::Parse { statement_name, sql, param_types } => Work::Prepare { sql: &sql },
            Command::Query { sql } => Work::Run { sql: &sql },
            Command::Execute { portal_name, max_rows } => if self.portals().contains_key(
                portal_name@,
            ) {
                Work::RunStatement { stmt: &self.portals()[portal_name@].stmt }
            } else {
                Work::Nothing
            },
            _ => Work::Nothing,
        }
    }

    /// A session without statements and portals.
    pub fn new() -> (engine: QueryEngine<S>)
        ensures
            engine.statements() == Map::<Seq<char>, PreparedStatement<S>>::empty(),
            engine.portals() == Map::<Seq<char>, Portal<S>>::empty(),
    {
        QueryEngine { session: Session { prepared_statements: NameMap::new(), portals: NameMap::new() } }
    }

    /// Says what is to be done outside the session before the command is
    /// executed: preparing the text of a `Parse`, running the text of a
    /// `Query`, running the statement of the portal of an `Execute`.
    pub fn work_for<'a>(&'a self, command: &'a Command) -> (work: Work<'a, S>)
        ensures
            work == self.work_spec(*command),
    {
        match command {
            Command::Parse { statement_name, sql, param_types } => Work::Prepare { sql },
            Command::Query { sql } => Work::Run { sql },
            Command::Execute { portal_name, max_rows } => match self.session.portals.get(
                portal_name.as_str(),
            ) {
                Some(portal) => Work::RunStatement { stmt: &portal.stmt },
                None => Work::Nothing,
            },
            _ => Work::Nothing,
        }
    }

    /// Answers `DescribeStatement`: the parameter types and the
    /// description of the statement, or that there is no such statement.
    pub fn describe_statement(&self, name: String) -> (out: Vec<Outgoing>)
        ensures
            describe_answer(self.statements(), name, out@),
    {
        let mut out: Vec<Outgoing> = Vec::new();
        match self.session.prepared_statements.get(name.as_str()) {
            Some(statement) => {
                out.push(
                    Outgoing::Send(
                        Ok(QueryEvent::StatementParameters(copy_types(&statement.param_types))),
                    ),
                );
                out.push(
                    Outgoing::Send(
                        Ok(
                            QueryEvent::StatementDescription(
                                copy_description(&statement.description),
                            ),
                        ),
                    ),
                );
            },
            None => {
                out.push(Outgoing::Send(Err(QueryError::prepared_statement_does_not_exist(name))));
            },
        }
        out
    }

    /// Answers `Query` with what came of running its text, and ends the
    /// answer.
    pub fn query(done: Done<S>) -> (out: Vec<Outgoing>)
        ensures
            query_answer(done, out@),
    {
        let mut out: Vec<Outgoing> = Vec::new();
        match done {
            Done::Ran(Ran::SyntaxError(message)) => {
                out.push(Outgoing::Send(Err(QueryError::syntax_error(message))));
                out.push(Outgoing::Send(Ok(QueryEvent::QueryComplete)));
                assert(out@ =~= seq![
                    Outgoing::Send(Err(QueryError::SyntaxError(message))),
                    query_complete(),
                ]);
            },
            Done::Ran(Ran::PlanErrors(errors)) => {
                send_plan_errors(&mut out, errors);
                out.push(Outgoing::Send(Ok(QueryEvent::QueryComplete)));
                assert(out@ =~= plan_errors_sent(errors@).push(query_complete()));
            },
            Done::Ran(Ran::Executed(results)) => {
                send_all(&mut out, results);
                out.push(Outgoing::Send(Ok(QueryEvent::QueryComplete)));
                assert(out@ =~= sent(results@).push(query_complete()));
            },
            _ => {
                out.push(Outgoing::Send(Ok(QueryEvent::QueryComplete)));
                assert(out@ =~= seq![query_complete()]);
            },
        }
        out
    }

    /// Answers `Execute` with what came of running the statement of the
    /// portal, or that there is no such portal, and ends the answer.
    pub fn execute_portal(&self, portal_name: String, done: Done<S>) -> (out: Vec<Outgoing>)
        ensures
            execute_answer(self.portals(), portal_name, done, out@),
    {
        let mut out: Vec<Outgoing> = Vec::new();
        if self.session.portals.contains(portal_name.as_str()) {
            match done {
                Done::Ran(Ran::Executed(results)) => {
                    send_all(&mut out, results);
                    out.push(Outgoing::Send(Ok(QueryEvent::QueryComplete)));
                    assert(out@ =~= sent(results@).push(query_complete()));
                },
                _ => {
                    out.push(Outgoing::Send(Ok(QueryEvent::QueryComplete)));
                    assert(out@ =~= seq![query_complete()]);
                },
            }
        } else {
            out.push(Outgoing::Send(Err(QueryError::portal_does_not_exist(portal_name))));
            out.push(Outgoing::Send(Ok(QueryEvent::QueryComplete)));
            assert(out@ =~= seq![
                Outgoing::Send(Err(QueryError::PortalDoesNotExist(portal_name))),
                query_complete(),
            ]);
        }
        out
    }

    /// Keeps a statement under the name.
    fn keep(
        &mut self,
        statement_name: String,
        stmt: S,
        param_types: Vec<PgType>,
        description: Description,
    ) -> (out: Vec<Outgoing>)
        ensures
            kept_statement(
                old(self).statements(),
                final(self).statements(),
                statement_name@,
                stmt,
                param_types@,
                description@,
            ),
            final(self).portals() == old(self).portals(),
            out@ == seq![Outgoing::Send(Ok(QueryEvent::ParseComplete))],
    {
        self.session.prepared_statements.insert(
            statement_name,
            PreparedStatement::new(stmt, param_types, description),
        );
        assert(self.statements().remove(statement_name@) =~= old(self).statements().remove(
            statement_name@,
        ));
        let mut out: Vec<Outgoing> = Vec::new();
        out.push(Outgoing::Send(Ok(QueryEvent::ParseComplete)));
        assert(out@ =~= seq![Outgoing::Send(Ok(QueryEvent::ParseComplete))]);
        out
    }

    /// Answers `Parse` with what came of preparing its text: keeps the
    /// statement under the name where it is one that can be kept, and
    /// reports the errors where it is not.
    pub fn parse(&mut self, statement_name: String, param_types: Vec<PgType>, done: Done<S>) -> (out:
        Vec<Outgoing>)
        ensures
            parse_answer(
                old(self).statements(),
                final(self).statements(),
                statement_name,
                param_types,
                done,
                out@,
            ),
            final(self).portals() == old(self).portals(),
    {
        match done {
            Done::Prepared(Prepared::SyntaxError(message)) => {
                let mut out: Vec<Outgoing> = Vec::new();
                out.push(Outgoing::Send(Err(QueryError::syntax_error(message))));
                assert(out@ =~= seq![Outgoing::Send(Err(QueryError::SyntaxError(message)))]);
                out
            },
            Done::Prepared(Prepared::PlanErrors(errors)) => {
                let mut out: Vec<Outgoing> = Vec::new();
                send_plan_errors(&mut out, errors);
                assert(out@ =~= plan_errors_sent(errors@));
                out
            },
            Done::Prepared(Prepared::Select { statement, columns }) => {
                let description = describe(columns);
                self.keep(statement_name, statement, param_types, description)
            },
            Done::Prepared(Prepared::Insert { statement, sql_types }) => match sql_types {
                Ok(sql_types) => {
                    let param_types = param_types_of(&sql_types);
                    self.keep(statement_name, statement, param_types, Vec::new())
                },
                Err(DescriptionError::TableDoesNotExist(table)) => {
                    let mut out: Vec<Outgoing> = Vec::new();
                    out.push(Outgoing::Send(Err(QueryError::table_does_not_exist(table))));
                    assert(out@ =~= seq![Outgoing::Send(Err(QueryError::TableDoesNotExist(table)))]);
                    out
                },
                Err(DescriptionError::SchemaDoesNotExist(schema)) => {
                    let mut out: Vec<Outgoing> = Vec::new();
                    out.push(Outgoing::Send(Err(QueryError::schema_does_not_exist(schema))));
                    assert(out@ =~= seq![
                        Outgoing::Send(Err(QueryError::SchemaDoesNotExist(schema))),
                    ]);
                    out
                },
            },
            Done::Prepared(Prepared::Update { statement }) => {
                self.keep(statement_name, statement, param_types, Vec::new())
            },
            Done::Prepared(Prepared::SetVariable { statement }) => {
                self.keep(statement_name, statement, param_types, Vec::new())
            },
            _ => Vec::new(),
        }
    }

    /// Answers `Bind`: binds the statement and keeps the portal, or
    /// reports why it did not.
    pub fn bind<
        D: Fn(PgType, PostgreSqlFormat, &Vec<u8>) -> Result<PostgreSqlValue, String>,
        B: Fn(&S, &Vec<PostgreSqlValue>) -> Result<S, ()>,
    >(
        &mut self,
        portal_name: String,
        statement_name: String,
        param_formats: Vec<PostgreSqlFormat>,
        raw_params: Vec<Option<Vec<u8>>>,
        result_formats: Vec<PostgreSqlFormat>,
        decode: &D,
        bind: &B,
    ) -> (out: Vec<Outgoing>)
        requires
            forall|pg_type: PgType, format: PostgreSqlFormat, bytes: &Vec<u8>|
                decode.requires((pg_type, format, bytes)),
            forall|stmt: &S, params: &Vec<PostgreSqlValue>| bind.requires((stmt, params)),
        ensures
            bind_answer(
                old(self).statements(),
                old(self).portals(),
                final(self).portals(),
                portal_name,
                statement_name,
                param_formats@,
                raw_params@,
                result_formats@,
                *decode,
                *bind,
                out@,
            ),
            final(self).statements() == old(self).statements(),
    {
        let mut out: Vec<Outgoing> = Vec::new();
        let bound = match self.session.prepared_statements.get(statement_name.as_str()) {
            Some(prepared_statement) => {
                let expected = prepared_statement.param_types.len();
                if expected != raw_params.len() {
                    let mut message = String::new();
                    message.append("Bind message supplies ");
                    push_decimal(&mut message, raw_params.len() as u64);
                    message.append(" parameters, but prepared statement \"");
                    message.append(statement_name.as_str());
                    message.append("\" requires ");
                    push_decimal(&mut message, expected as u64);
                    assert(message@ =~= params_mismatch_text(
                        statement_name@,
                        raw_params@.len(),
                        expected as nat,
                    ));
                    out.push(Outgoing::Send(Err(QueryError::protocol_violation(message))));
                    return out;
                }
                bind_prepared_statement_to_portal(
                    prepared_statement,
                    param_formats.as_slice(),
                    raw_params.as_slice(),
                    result_formats.as_slice(),
                    decode,
                    bind,
                )
            },
            None => {
                out.push(
                    Outgoing::Send(
                        Err(QueryError::prepared_statement_does_not_exist(statement_name)),
                    ),
                );
                assert(out@ =~= seq![
                    Outgoing::Send(Err(QueryError::PreparedStatementDoesNotExist(statement_name))),
                ]);
                return out;
            },
        };
        match bound {
            Ok((stmt, result_formats)) => {
                self.session.portals.insert(
                    portal_name.clone(),
                    Portal { statement_name, stmt, result_formats },
                );
                out.push(Outgoing::Send(Ok(QueryEvent::BindComplete)));
                assert(out@ =~= seq![Outgoing::Send(Ok(QueryEvent::BindComplete))]);
            },
            Err(BindError::ProtocolViolation(message)) => {
                out.push(Outgoing::Send(Err(QueryError::protocol_violation(message))));
                assert(out@ =~= seq![Outgoing::Send(Err(QueryError::ProtocolViolation(message)))]);
            },
            Err(BindError::InvalidParameterValue(message)) => {
                out.push(Outgoing::Send(Err(QueryError::invalid_parameter_value(message))));
                assert(out@ =~= seq![
                    Outgoing::Send(Err(QueryError::InvalidParameterValue(message))),
                ]);
            },
            Err(BindError::NotBound) => {},
        }
        assert(bound_answer(
            old(self).portals(),
            self.portals(),
            portal_name,
            statement_name,
            bound,
            out@,
        ));
        out
    }

    /// Answers a command of the client with what came of the work that
    /// [`QueryEngine::work_for`] asked for it. Says what goes out to the
    /// client, in order, and whether the session goes on: only `Terminate`
    /// ends it.
    pub fn respond<
        D: Fn(PgType, PostgreSqlFormat, &Vec<u8>) -> Result<PostgreSqlValue, String>,
        B: Fn(&S, &Vec<PostgreSqlValue>) -> Result<S, ()>,
    >(&mut self, command: Command, done: Done<S>, decode: &D, bind: &B) -> (answer: (
        Result<(), ()>,
        Vec<Outgoing>,
    ))
        requires
            forall|pg_type: PgType, format: PostgreSqlFormat, bytes: &Vec<u8>|
                decode.requires((pg_type, format, bytes)),
            forall|stmt: &S, params: &Vec<PostgreSqlValue>| bind.requires((stmt, params)),
        ensures
            responded(*old(self), *final(self), command, done, *decode, *bind, answer),
    {
        match command {
            Command::Bind {
                portal_name,
                statement_name,
                param_formats,
                raw_params,
                result_formats,
            } => {
                let out = self.bind(
                    portal_name,
                    statement_name,
                    param_formats,
                    raw_params,
                    result_formats,
                    decode,
                    bind,
                );
                (Ok(()), out)
            },
            Command::Continue => {
                let mut out: Vec<Outgoing> = Vec::new();
                out.push(Outgoing::Send(Ok(QueryEvent::QueryComplete)));
                assert(out@ =~= seq![query_complete()]);
                (Ok(()), out)
            },
            Command::DescribeStatement { name } => (Ok(()), self.describe_statement(name)),
            Command::Execute { portal_name, max_rows } => (
                Ok(()),
                self.execute_portal(portal_name, done),
            ),
            Command::Flush => {
                let mut out: Vec<Outgoing> = Vec::new();
                out.push(Outgoing::Flush);
                assert(out@ =~= seq![Outgoing::Flush]);
                (Ok(()), out)
            },
            Command::Parse { statement_name, sql, param_types } => (
                Ok(()),
                self.parse(statement_name, param_types, done),
            ),
            Command::Query { sql } => (Ok(()), Self::query(done)),
            Command::Terminate => (Err(()), Vec::new()),
        }
    }
}

/// What the session answers to a command, given what came of the work
/// that the command asked for, and what it keeps: only `Parse` changes the
/// prepared statements, only `Bind` the portals, and only `Terminate` ends
/// the session.
pub open spec fn responded<
    S,
    D: Fn(PgType, PostgreSqlFormat, &Vec<u8>) -> Result<PostgreSqlValue, String>,
    B: Fn(&S, &Vec<PostgreSqlValue>) -> Result<S, ()>,
>(
    before: QueryEngine<S>,
    after: QueryEngine<S>,
    command: Command,
    done: Done<S>,
    decode: D,
    bind: B,
    answer: (Result<(), ()>, Vec<Outgoing>),
) -> bool {
    &&& answer.0 is Err <==> command is Terminate
    &&& !(command is Parse) ==> after.statements() == before.statements()
    &&& !(command is Bind) ==> after.portals() == before.portals()
    &&& match command {
        Command::Bind {
            portal_name,
            statement_name,
            param_formats,
            raw_params,
            result_formats,
        } => bind_answer(
            before.statements(),
            before.portals(),
            after.portals(),
            portal_name,
            statement_name,
            param_formats@,
            raw_params@,
            result_formats@,
            decode,
            bind,
            answer.1@,
        ),
        Command::Continue => answer.1@ == seq![query_complete()],
        Command::DescribeStatement { name } => describe_answer(
            before.statements(),
            name,
            answer.1@,
        ),
        Command::Execute { portal_name, max_rows } => execute_answer(
            before.portals(),
            portal_name,
            done,
            answer.1@,
        ),
        Command::Flush => answer.1@ == seq![Outgoing::Flush],
        Command::Parse { statement_name, sql, param_types } => parse_answer(
            before.statements(),
            after.statements(),
            statement_name,
            param_types,
            done,
            answer.1@,
        ),
        Command::Query { sql } => query_answer(done, answer.1@),
        Command::Terminate => answer.1@ == Seq::<Outgoing>::empty(),
    }
}

} // verus!
