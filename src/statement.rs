use vstd::prelude::*;

use std::sync::Arc;

use stoolap::api::Database as EngineDatabase;

use crate::database::{call_outcome, run_owned_batch, Database, batch_outcome};
use crate::engine::{
    db_cached_plan, db_execute_named_plan, db_execute_plan, db_query_named_plan, db_query_plan,
    plan_statement,
};
use crate::error::StoolapError;
use crate::params::{parse_params, positional_sets, BindParams, HostParams};
use crate::rows::{
    first_row_to_dict, rows_to_dicts, rows_to_raw, to_py, RowSet,
};
use crate::value::SqlValue;

verus! {

/// A statement compiled once; every call binds fresh parameters to the same plan,
/// without parsing again.
pub struct PreparedStatement {
    db: Arc<EngineDatabase>,
    sql_text: String,
    plan: stoolap::CachedPlanRef,
}

impl PreparedStatement {
    /// The statement's SQL text.
    pub closed spec fn sql_view(&self) -> Seq<char> {
        self.sql_text@
    }

    /// Compiles `sql` against the database's planner.
    pub fn new(db: &Database, sql: &str) -> (r: Result<PreparedStatement, StoolapError>)
        ensures
            r matches Ok(p) ==> p.sql_view() == sql@,
            r matches Err(e) ==> e is Engine,
    {
        match db_cached_plan(&**db.engine(), sql) {
            Ok(plan) => Ok(PreparedStatement { db: Arc::clone(db.engine()), sql_text: sql.to_owned(), plan }),
            Err(e) => Err(to_py(e)),
        }
    }

    /// The statement's SQL text.
    pub fn sql(&self) -> (r: &str)
        ensures
            r@ == self.sql_view(),
    {
        self.sql_text.as_str()
    }

    /// Runs the statement and returns the number of rows it affected.
    pub fn execute(&self, params: HostParams) -> (r: Result<i64, StoolapError>)
        ensures
            call_outcome(params, r),
    {
        let res = match parse_params(params) {
            Err(e) => {
                return Err(e);
            },
            Ok(BindParams::Positional(p)) => db_execute_plan(&*self.db, &self.plan, &p),
            Ok(BindParams::Named(n)) => db_execute_named_plan(
                &*self.db,
                &self.plan,
                &n,
            ),
        };
        match res {
            Ok(n) => Ok(n),
            Err(e) => Err(to_py(e)),
        }
    }

    fn run_query(&self, params: HostParams) -> (r: Result<stoolap::api::Rows, StoolapError>)
        ensures
            call_outcome(params, r),
    {
        let res = match parse_params(params) {
            Err(e) => {
                return Err(e);
            },
            Ok(BindParams::Positional(p)) => db_query_plan(&*self.db, &self.plan, &p),
            Ok(BindParams::Named(n)) => db_query_named_plan(
                &*self.db,
                &self.plan,
                &n,
            ),
        };
        match res {
            Ok(rows) => Ok(rows),
            Err(e) => Err(to_py(e)),
        }
    }

    /// Runs the statement and reads every row as a record.
    pub fn query(&self, params: HostParams) -> (r: Result<
        (Vec<String>, Vec<Vec<(String, SqlValue)>>),
        StoolapError,
    >)
        ensures
            call_outcome(params, r),
    {
        match self.run_query(params) {
            Ok(rows) => rows_to_dicts(rows),
            Err(e) => Err(e),
        }
    }

    /// Runs the statement and reads its first row as a record, if there is one.
    pub fn query_one(&self, params: HostParams) -> (r: Result<
        Option<Vec<(String, SqlValue)>>,
        StoolapError,
    >)
        ensures
            call_outcome(params, r),
    {
        match self.run_query(params) {
            Ok(rows) => first_row_to_dict(rows),
            Err(e) => Err(e),
        }
    }

    /// Runs the statement and reads its rows in tabular form.
    pub fn query_raw(&self, params: HostParams) -> (r: Result<RowSet, StoolapError>)
        ensures
            call_outcome(params, r),
            r matches Ok(rs) ==> rs.wf(),
    {
        match self.run_query(params) {
            Ok(rows) => rows_to_raw(rows),
            Err(e) => Err(e),
        }
    }

    /// Runs the statement once per positional parameter set in a transaction of its
    /// own, committed once at the end, and returns the total of rows affected. A named
    /// set is rejected before the engine is reached; on any failure nothing is
    /// committed.
    pub fn execute_batch(&self, sets: Vec<HostParams>) -> (r: Result<i64, StoolapError>)
        ensures
            batch_outcome(sets@, r),
    {
        let all = match positional_sets(sets) {
            Ok(all) => all,
            Err(e) => {
                return Err(e);
            },
        };
        run_owned_batch(&*self.db, plan_statement(&self.plan), &all)
    }
}

} // verus!
