//! The engine operations this layer relies on. Each wrapper makes one stoolap call;
//! the engine's state is opaque here, so most of them promise nothing of the
//! outcome, and the callers state what holds whatever came back.
use vstd::prelude::*;

use stoolap::api::Database as EngineDatabase;
use stoolap::ApiTransaction as EngineTransaction;

use stoolap::Value as EngineValue;

use crate::params::all_wf;
use crate::rows::values_wf;
use crate::value::SqlValue;

verus! {

#[verifier::external_type_specification]
#[verifier::external_body]
pub struct ExDatabase(EngineDatabase);

#[verifier::external_type_specification]
#[verifier::external_body]
pub struct ExTransaction(EngineTransaction);

#[verifier::external_type_specification]
#[verifier::external_body]
pub struct ExRows(stoolap::api::Rows);

#[verifier::external_type_specification]
#[verifier::external_body]
pub struct ExResultRow(stoolap::api::ResultRow);

#[verifier::external_type_specification]
#[verifier::external_body]
pub struct ExCachedPlanRef(stoolap::CachedPlanRef);

#[verifier::external_type_specification]
#[verifier::external_body]
pub struct ExEngineValue(EngineValue);

#[verifier::external_type_specification]
#[verifier::external_body]
pub struct ExEngineError(stoolap::core::Error);

#[verifier::external_type_specification]
#[verifier::external_body]
pub struct ExStatement(stoolap::parser::ast::Statement);

#[verifier::external_type_specification]
#[verifier::external_body]
pub struct ExParseErrors(stoolap::parser::ParseErrors);

#[verifier::external_type_specification]
#[verifier::external_body]
pub struct ExNamedParams(stoolap::api::NamedParams);

/// Relies on stoolap's `Database::open`.
#[verifier::external_body]
pub(crate) fn db_open(dsn: &str) -> Result<EngineDatabase, stoolap::core::Error> {
    EngineDatabase::open(dsn)
}

/// Relies on stoolap's `Database::execute` with positional parameters.
#[verifier::external_body]
pub(crate) fn db_execute(
    db: &EngineDatabase,
    sql: &str,
    params: &Vec<SqlValue>,
) -> Result<i64, stoolap::core::Error> 
    requires
        values_wf(params@),
{
    db.execute(sql, engine_values(params))
}

/// Relies on stoolap's `Database::execute_named`.
#[verifier::external_body]
pub(crate) fn db_execute_named(
    db: &EngineDatabase,
    sql: &str,
    params: &Vec<(String, SqlValue)>,
) -> Result<i64, stoolap::core::Error> 
    requires
        all_wf(params@),
{
    db.execute_named(sql, to_named_params(params))
}

/// Relies on stoolap's `Database::query` with positional parameters.
#[verifier::external_body]
pub(crate) fn db_query(
    db: &EngineDatabase,
    sql: &str,
    params: &Vec<SqlValue>,
) -> Result<stoolap::api::Rows, stoolap::core::Error> 
    requires
        values_wf(params@),
{
    db.query(sql, engine_values(params))
}

/// Relies on stoolap's `Database::query_named`.
#[verifier::external_body]
pub(crate) fn db_query_named(
    db: &EngineDatabase,
    sql: &str,
    params: &Vec<(String, SqlValue)>,
) -> Result<stoolap::api::Rows, stoolap::core::Error> 
    requires
        all_wf(params@),
{
    db.query_named(sql, to_named_params(params))
}

/// Relies on stoolap's `Database::begin`: a fresh transaction.
#[verifier::external_body]
pub(crate) fn db_begin(db: &EngineDatabase) -> Result<
    EngineTransaction,
    stoolap::core::Error,
> {
    db.begin()
}

/// Relies on stoolap's `Database::close`.
#[verifier::external_body]
pub(crate) fn db_close(db: &EngineDatabase) -> Result<(), stoolap::core::Error> {
    db.close()
}

/// Relies on stoolap's `Database::cached_plan`: parses and plans `sql` once.
#[verifier::external_body]
pub(crate) fn db_cached_plan(db: &EngineDatabase, sql: &str) -> Result<
    stoolap::CachedPlanRef,
    stoolap::core::Error,
> {
    db.cached_plan(sql)
}

/// Relies on stoolap's `Database::execute_plan`.
#[verifier::external_body]
pub(crate) fn db_execute_plan(
    db: &EngineDatabase,
    plan: &stoolap::CachedPlanRef,
    params: &Vec<SqlValue>,
) -> Result<i64, stoolap::core::Error> 
    requires
        values_wf(params@),
{
    db.execute_plan(plan, engine_values(params))
}

/// Relies on stoolap's `Database::execute_named_plan`.
#[verifier::external_body]
pub(crate) fn db_execute_named_plan(
    db: &EngineDatabase,
    plan: &stoolap::CachedPlanRef,
    params: &Vec<(String, SqlValue)>,
) -> Result<i64, stoolap::core::Error> 
    requires
        all_wf(params@),
{
    db.execute_named_plan(plan, to_named_params(params))
}

/// Relies on stoolap's `Database::query_plan`.
#[verifier::external_body]
pub(crate) fn db_query_plan(
    db: &EngineDatabase,
    plan: &stoolap::CachedPlanRef,
    params: &Vec<SqlValue>,
) -> Result<stoolap::api::Rows, stoolap::core::Error> 
    requires
        values_wf(params@),
{
    db.query_plan(plan, engine_values(params))
}

/// Relies on stoolap's `Database::query_named_plan`.
#[verifier::external_body]
pub(crate) fn db_query_named_plan(
    db: &EngineDatabase,
    plan: &stoolap::CachedPlanRef,
    params: &Vec<(String, SqlValue)>,
) -> Result<stoolap::api::Rows, stoolap::core::Error> 
    requires
        all_wf(params@),
{
    db.query_named_plan(plan, to_named_params(params))
}

/// Relies on the `statement` field of stoolap's `CachedPlanRef`: the parsed statement.
#[verifier::external_body]
pub(crate) fn plan_statement(plan: &stoolap::CachedPlanRef) -> &stoolap::parser::ast::Statement {
    plan.statement.as_ref()
}

/// Relies on stoolap's `Parser::parse_program`: the statements of `sql`, in order.
#[verifier::external_body]
pub(crate) fn parse_program(sql: &str) -> Result<
    Vec<stoolap::parser::ast::Statement>,
    stoolap::parser::ParseErrors,
> {
    Ok(stoolap::parser::Parser::new(sql).parse_program()?.statements)
}

/// Relies on stoolap's `Transaction::execute`.
#[verifier::external_body]
pub(crate) fn tx_execute(
    tx: &mut EngineTransaction,
    sql: &str,
    params: &Vec<SqlValue>,
) -> Result<i64, stoolap::core::Error> 
    requires
        values_wf(params@),
{
    tx.execute(sql, engine_values(params))
}

/// Relies on stoolap's `Transaction::execute_named`.
#[verifier::external_body]
pub(crate) fn tx_execute_named(
    tx: &mut EngineTransaction,
    sql: &str,
    params: &Vec<(String, SqlValue)>,
) -> Result<i64, stoolap::core::Error> 
    requires
        all_wf(params@),
{
    tx.execute_named(sql, to_named_params(params))
}

/// Relies on stoolap's `Transaction::query`.
#[verifier::external_body]
pub(crate) fn tx_query(
    tx: &mut EngineTransaction,
    sql: &str,
    params: &Vec<SqlValue>,
) -> Result<stoolap::api::Rows, stoolap::core::Error> 
    requires
        values_wf(params@),
{
    tx.query(sql, engine_values(params))
}

/// Relies on stoolap's `Transaction::query_named`.
#[verifier::external_body]
pub(crate) fn tx_query_named(
    tx: &mut EngineTransaction,
    sql: &str,
    params: &Vec<(String, SqlValue)>,
) -> Result<stoolap::api::Rows, stoolap::core::Error> 
    requires
        all_wf(params@),
{
    tx.query_named(sql, to_named_params(params))
}

/// Relies on stoolap's `Transaction::execute_prepared`: runs an already parsed statement.
#[verifier::external_body]
pub(crate) fn tx_execute_prepared(
    tx: &mut EngineTransaction,
    stmt: &stoolap::parser::ast::Statement,
    params: &Vec<SqlValue>,
) -> Result<i64, stoolap::core::Error> 
    requires
        values_wf(params@),
{
    tx.execute_prepared(stmt, engine_values(params))
}

/// Relies on stoolap's `Transaction::commit`.
#[verifier::external_body]
pub(crate) fn tx_commit(tx: &mut EngineTransaction) -> Result<(), stoolap::core::Error> {
    tx.commit()
}

/// Relies on stoolap's `Transaction::rollback`.
#[verifier::external_body]
pub(crate) fn tx_rollback(tx: &mut EngineTransaction) -> Result<(), stoolap::core::Error> {
    tx.rollback()
}

/// The text that an engine error displays.
pub uninterp spec fn engine_message(e: stoolap::core::Error) -> Seq<char>;

/// Relies on `Display` of stoolap's `Error`: the engine's message, which depends on
/// the error alone.
#[verifier::external_body]
pub(crate) fn error_message(e: &stoolap::core::Error) -> (r: String)
    ensures
        r@ == engine_message(*e),
{
    e.to_string()
}

/// Relies on `Display` of stoolap's `ParseErrors`: the parser's message.
#[verifier::external_body]
pub(crate) fn parse_error_message(e: &stoolap::parser::ParseErrors) -> String {
    e.to_string()
}

/// Relies on stoolap's `Rows::columns`: the result's column names, in order.
#[verifier::external_body]
pub(crate) fn rows_columns(rows: &stoolap::api::Rows) -> Vec<String> {
    rows.columns().to_vec()
}

/// Relies on stoolap's `Iterator` impl for `Rows`: the next row, a failure, or the end.
#[verifier::external_body]
pub(crate) fn rows_next(rows: &mut stoolap::api::Rows) -> Option<
    Result<stoolap::api::ResultRow, stoolap::core::Error>,
> {
    rows.next()
}

/// Relies on stoolap's `ResultRow::get_value`: the value in column `i`, if the row has one.
#[verifier::external_body]
pub(crate) fn row_value(row: &stoolap::api::ResultRow, i: usize) -> Option<stoolap::core::Value> {
    row.get_value(i).cloned()
}

/// Relies on the variants of stoolap's `Value`, read one for one; a timestamp is
/// read with chrono's `DateTime::timestamp_micros`. An extension value gives `None`.
#[verifier::external_body]
pub(crate) fn engine_scalar(v: &stoolap::core::Value) -> Option<SqlValue> {
    match v {
        stoolap::core::Value::Null(_) => Some(SqlValue::Null),
        stoolap::core::Value::Boolean(b) => Some(SqlValue::Boolean(*b)),
        stoolap::core::Value::Integer(i) => Some(SqlValue::Integer(*i)),
        stoolap::core::Value::Float(f) => Some(SqlValue::Float(f.to_bits())),
        stoolap::core::Value::Text(s) => Some(SqlValue::Text(s.to_string())),
        stoolap::core::Value::Timestamp(t) => Some(SqlValue::Timestamp(t.timestamp_micros())),
        stoolap::core::Value::Extension(_) => None,
    }
}

/// Relies on stoolap's `Value::as_vector_f32`: a vector value's elements, here as
/// their `binary32` bit patterns.
#[verifier::external_body]
pub(crate) fn engine_vector_bits(v: &stoolap::core::Value) -> Option<Vec<u32>> {
    let x = v.as_vector_f32()?;
    Some(x.iter().map(|f| f.to_bits()).collect())
}

/// Relies on stoolap's `Value::as_json`: the encoded text of a JSON value.
#[verifier::external_body]
pub(crate) fn engine_json_text(v: &stoolap::core::Value) -> Option<String> {
    Some(v.as_json()?.to_string())
}

/// Relies on `Display` of stoolap's `Value`.
#[verifier::external_body]
pub(crate) fn engine_display(v: &stoolap::core::Value) -> String {
    v.to_string()
}

/// Relies on stoolap's `Value` constructors, one for each variant: `binary64` and
/// `binary32` bit patterns become the floats they encode, and a timestamp goes through
/// chrono's `DateTime::from_timestamp_micros` (always `Some` on a well-formed value).
#[verifier::external_body]
fn engine_value(v: &SqlValue) -> EngineValue
    requires
        v.wf(),
{
    match v {
        SqlValue::Null => EngineValue::null_unknown(),
        SqlValue::Boolean(b) => EngineValue::boolean(*b),
        SqlValue::Integer(i) => EngineValue::integer(*i),
        SqlValue::Float(f) => EngineValue::float(bytemuck::cast(*f)),
        SqlValue::Text(s) => EngineValue::text(s.as_str()),
        SqlValue::Timestamp(m) => chrono::DateTime::from_timestamp_micros(*m)
            .map_or_else(EngineValue::null_unknown, EngineValue::timestamp),
        SqlValue::Vector(x) => EngineValue::vector(bytemuck::cast_slice(x.as_slice()).to_vec()),
        SqlValue::Json(j) => EngineValue::json(j.as_str()),
    }
}

/// The engine's form of positional values, one for one and in order.
#[verifier::external_body]
fn engine_values(vs: &Vec<SqlValue>) -> Vec<EngineValue>
    requires
        values_wf(vs@),
{
    vs.iter().map(engine_value).collect()
}

/// Relies on stoolap's `NamedParams::insert` for each binding, in order; each value
/// goes over in its engine form.
#[verifier::external_body]
pub fn to_named_params(named: &Vec<(String, SqlValue)>) -> stoolap::api::NamedParams
    requires
        all_wf(named@),
{
    let mut np = stoolap::api::NamedParams::new();
    for (k, v) in named {
        np.insert(k.as_str(), engine_value(v));
    }
    np
}

} // verus!
