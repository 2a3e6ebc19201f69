use vstd::prelude::*;

use stoolap::ApiTransaction as EngineTransaction;

use crate::database::{batch_result, parse_statement, run_batch_in, stops_at_failure};
use crate::engine::{
    tx_commit, tx_execute, tx_execute_named, tx_query, tx_query_named, tx_rollback,
};
use crate::error::StoolapError;
use crate::params::{
    batch_sets, params_error, parse_params, positional_sets, BindParams, HostParams,
};
use crate::rows::{
    first_row_to_dict, rows_to_dicts, rows_to_raw, to_py, RowSet,
};
use crate::value::SqlValue;

verus! {

/// What an operation on a transaction gives: the error of its parameters if they fail
/// to parse; else, on a closed transaction, `Inactive`; else success or a failure the
/// engine reported. The engine is reached only in the last case.
pub open spec fn tx_outcome<T>(active: bool, h: HostParams, r: Result<T, StoolapError>) -> bool {
    match params_error(h) {
        Some(e) => r == Err::<T, StoolapError>(e),
        None => if !active {
            r == Err::<T, StoolapError>(StoolapError::Inactive)
        } else {
            r matches Err(e) ==> e is Engine
        },
    }
}

/// What a batch inside a transaction gives: the error of its parameter sets if they
/// fail to parse or include a named set; else, on a closed transaction, `Inactive`;
/// else a failure of the engine or of a script with no statement, or the total that
/// `settle_batch` gives for the runs of every set.
pub open spec fn tx_batch_outcome(
    active: bool,
    sets: Seq<HostParams>,
    r: Result<i64, StoolapError>,
) -> bool {
    match batch_sets(sets) {
        Err(e) => r == Err::<i64, StoolapError>(e),
        Ok(ps) => if !active {
            r == Err::<i64, StoolapError>(StoolapError::Inactive)
        } else {
            &&& r matches Err(e) ==> (e is Engine || e is NoStatement)
            &&& r is Ok ==> exists|o: Seq<Result<i64, StoolapError>>|
                stops_at_failure(o, ps.len() as int) && r == batch_result(o)
        },
    }
}

/// On a closed transaction every data operation fails with a usage error, whatever
/// its parameters.
pub proof fn lemma_closed_rejects<T>(h: HostParams, r: Result<T, StoolapError>)
    requires
        tx_outcome(false, h, r),
    ensures
        r matches Err(e) && e.is_usage(),
{
    crate::params::lemma_params_error_is_usage(h);
}

/// On a closed transaction a batch fails with a usage error, whatever its sets.
pub proof fn lemma_closed_rejects_batch(sets: Seq<HostParams>, r: Result<i64, StoolapError>)
    requires
        tx_batch_outcome(false, sets, r),
    ensures
        r matches Err(e) && e.is_usage(),
{
    crate::params::lemma_batch_sets_usage(sets);
}

/// How a scope ends, given the outcome of its commit (after a clean scope) or of its
/// rollback (after a failed one): a commit's failure is passed on; a rollback's
/// failure is dropped, so that the scope's own failure is the one that surfaces.
pub open spec fn scope_end_spec(failed: bool, outcome: Result<(), StoolapError>) -> Result<
    (),
    StoolapError,
> {
    if failed {
        Ok(())
    } else {
        outcome
    }
}

/// Ends a scope from the outcome of its commit or rollback (see `scope_end_spec`).
pub fn scope_end(failed: bool, outcome: Result<(), StoolapError>) -> (r: Result<(), StoolapError>)
    ensures
        r == scope_end_spec(failed, outcome),
{
    if failed {
        Ok(())
    } else {
        outcome
    }
}

/// A transaction handle: active until its first commit or rollback, closed after.
pub struct Transaction {
    tx: Option<EngineTransaction>,
}

impl Transaction {
    pub closed spec fn is_active(&self) -> bool {
        self.tx is Some
    }

    /// A handle on a transaction the engine has begun.
    pub fn from_tx(tx: EngineTransaction) -> (r: Transaction)
        ensures
            r.is_active(),
    {
        Transaction { tx: Some(tx) }
    }

    /// The handle is still active.
    pub fn active(&self) -> (r: bool)
        ensures
            r == self.is_active(),
    {
        self.tx.is_some()
    }

    /// Runs one statement within the transaction and returns the number of rows it
    /// affected.
    pub fn execute(&mut self, sql: &str, params: HostParams) -> (r: Result<i64, StoolapError>)
        ensures
            final(self).is_active() == old(self).is_active(),
            tx_outcome(old(self).is_active(), params, r),
    {
        let bind = match parse_params(params) {
            Ok(b) => b,
            Err(e) => {
                return Err(e);
            },
        };
        let tx = match &mut self.tx {
            Some(tx) => tx,
            None => {
                return Err(StoolapError::Inactive);
            },
        };
        let res = match bind {
            BindParams::Positional(p) => tx_execute(tx, sql, &p),
            BindParams::Named(n) => tx_execute_named(tx, sql, &n),
        };
        match res {
            Ok(n) => Ok(n),
            Err(e) => Err(to_py(e)),
        }
    }

    fn run_query(&mut self, sql: &str, params: HostParams) -> (r: Result<
        stoolap::api::Rows,
        StoolapError,
    >)
        ensures
            final(self).is_active() == old(self).is_active(),
            tx_outcome(old(self).is_active(), params, r),
    {
        let bind = match parse_params(params) {
            Ok(b) => b,
            Err(e) => {
                return Err(e);
            },
        };
        let tx = match &mut self.tx {
            Some(tx) => tx,
            None => {
                return Err(StoolapError::Inactive);
            },
        };
        let res = match bind {
            BindParams::Positional(p) => tx_query(tx, sql, &p),
            BindParams::Named(n) => tx_query_named(tx, sql, &n),
        };
        match res {
            Ok(rows) => Ok(rows),
            Err(e) => Err(to_py(e)),
        }
    }

    /// Runs a query within the transaction and reads every row as a record.
    pub fn query(&mut self, sql: &str, params: HostParams) -> (r: Result<
        (Vec<String>, Vec<Vec<(String, SqlValue)>>),
        StoolapError,
    >)
        ensures
            final(self).is_active() == old(self).is_active(),
            tx_outcome(old(self).is_active(), params, r),
    {
        match self.run_query(sql, params) {
            Ok(rows) => rows_to_dicts(rows),
            Err(e) => Err(e),
        }
    }

    /// Runs a query within the transaction and reads its first row, if there is one.
    pub fn query_one(&mut self, sql: &str, params: HostParams) -> (r: Result<
        Option<Vec<(String, SqlValue)>>,
        StoolapError,
    >)
        ensures
            final(self).is_active() == old(self).is_active(),
            tx_outcome(old(self).is_active(), params, r),
    {
        match self.run_query(sql, params) {
            Ok(rows) => first_row_to_dict(rows),
            Err(e) => Err(e),
        }
    }

    /// Runs a query within the transaction and reads its rows in tabular form.
    pub fn query_raw(&mut self, sql: &str, params: HostParams) -> (r: Result<
        RowSet,
        StoolapError,
    >)
        ensures
            final(self).is_active() == old(self).is_active(),
            tx_outcome(old(self).is_active(), params, r),
            r matches Ok(rs) ==> rs.wf(),
    {
        match self.run_query(sql, params) {
            Ok(rows) => rows_to_raw(rows),
            Err(e) => Err(e),
        }
    }

    /// Runs one statement once per positional parameter set within this transaction,
    /// without committing, and returns the total of rows affected. The statement is
    /// parsed once. After a failure the effects of the earlier sets stay pending until
    /// the caller commits or rolls back.
    pub fn execute_batch(&mut self, sql: &str, sets: Vec<HostParams>) -> (r: Result<
        i64,
        StoolapError,
    >)
        ensures
            final(self).is_active() == old(self).is_active(),
            tx_batch_outcome(old(self).is_active(), sets@, r),
    {
        let all = match positional_sets(sets) {
            Ok(all) => all,
            Err(e) => {
                return Err(e);
            },
        };
        let tx = match &mut self.tx {
            Some(tx) => tx,
            None => {
                return Err(StoolapError::Inactive);
            },
        };
        let stmt = match parse_statement(sql) {
            Ok(s) => s,
            Err(e) => {
                return Err(e);
            },
        };
        run_batch_in(tx, &stmt, &all)
    }

    /// Commits the transaction. The handle is closed afterwards, whether the commit
    /// succeeded or not.
    pub fn commit(&mut self) -> (r: Result<(), StoolapError>)
        ensures
            !final(self).is_active(),
            !old(self).is_active() ==> r == Err::<(), StoolapError>(StoolapError::Inactive),
            old(self).is_active() ==> (r matches Err(e) ==> e is Engine),
    {
        match self.tx.take() {
            None => Err(StoolapError::Inactive),
            Some(mut tx) => match tx_commit(&mut tx) {
                Ok(()) => Ok(()),
                Err(e) => Err(to_py(e)),
            },
        }
    }

    /// Rolls the transaction back. The handle is closed afterwards, whether the
    /// rollback succeeded or not.
    pub fn rollback(&mut self) -> (r: Result<(), StoolapError>)
        ensures
            !final(self).is_active(),
            !old(self).is_active() ==> r == Err::<(), StoolapError>(StoolapError::Inactive),
            old(self).is_active() ==> (r matches Err(e) ==> e is Engine),
    {
        match self.tx.take() {
            None => Err(StoolapError::Inactive),
            Some(mut tx) => match tx_rollback(&mut tx) {
                Ok(()) => Ok(()),
                Err(e) => Err(to_py(e)),
            },
        }
    }

    /// Ends a scope that holds the transaction. After a clean scope it commits and
    /// reports a commit failure; after a failed scope it rolls back and ignores a
    /// rollback failure, so that the scope's own failure is the one that surfaces. A
    /// handle already closed is left as it is.
    pub fn exit_scope(&mut self, failed: bool) -> (r: Result<(), StoolapError>)
        ensures
            !final(self).is_active(),
            (failed || !old(self).is_active()) ==> r is Ok,
            r matches Err(e) ==> e is Engine,
            old(self).is_active() && !failed ==> exists|c: Result<(), StoolapError>|
                r == scope_end_spec(false, c) && (c matches Err(e) ==> e is Engine),
    {
        match self.tx.take() {
            None => Ok(()),
            Some(mut tx) => {
                let outcome = if failed {
                    match tx_rollback(&mut tx) {
                        Ok(()) => Ok(()),
                        Err(e) => Err(to_py(e)),
                    }
                } else {
                    match tx_commit(&mut tx) {
                        Ok(()) => Ok(()),
                        Err(e) => Err(to_py(e)),
                    }
                };
                let ghost c = outcome;
                let r = scope_end(failed, outcome);
                assert(!failed ==> r == scope_end_spec(false, c));
                r
            },
        }
    }
}

} // verus!
