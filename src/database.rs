use vstd::prelude::*;

use std::sync::Arc;

use stoolap::api::Database as EngineDatabase;

use crate::engine::{
    db_begin, db_close, db_execute, db_execute_named, db_open, db_query, db_query_named,
    parse_error_message, parse_program, tx_commit, tx_execute_prepared,
};
use crate::error::StoolapError;
use crate::params::{
    batch_sets, params_error, parse_params, positional_sets, BindParams, HostParams,
};
use crate::rows::{
    first_row_to_dict, rows_to_dicts, rows_to_raw, to_py, values_wf, RowSet,
};
use crate::splitter::{split_sql_statements, split_statements_spec, views_of};
use crate::statement::PreparedStatement;
use crate::text::{has_prefix, trim, trimmed};
use crate::transaction::Transaction;
use crate::value::SqlValue;

verus! {

/// A character that may stand in a URI scheme after its first letter.
pub open spec fn is_scheme_char(c: char) -> bool {
    ('a' <= c <= 'z') || ('A' <= c <= 'Z') || ('0' <= c <= '9') || c == '+' || c == '-' || c
        == '.'
}

/// `t` starts with a scheme of `k` characters followed by `://`: a letter, then
/// scheme characters.
pub open spec fn scheme_at(t: Seq<char>, k: int) -> bool {
    &&& 1 <= k && k + 3 <= t.len()
    &&& ('a' <= t[0] <= 'z') || ('A' <= t[0] <= 'Z')
    &&& forall|j: int| 0 <= j < k ==> is_scheme_char(#[trigger] t[j])
    &&& t[k] == ':' && t[k + 1] == '/' && t[k + 2] == '/'
}

/// `t` starts with `<scheme>://`.
pub open spec fn has_scheme_prefix(t: Seq<char>) -> bool {
    exists|k: int| #[trigger] scheme_at(t, k)
}

/// The engine address that a host path names: an empty path or `:memory:` names an
/// in-memory database, a path that already carries a `<scheme>://` prefix is kept,
/// and any other path names a file-backed database.
pub open spec fn dsn_for(path: Seq<char>) -> Seq<char> {
    let t = trimmed(path);
    if t.len() == 0 || t == ":memory:"@ {
        "memory://"@
    } else if has_scheme_prefix(t) {
        t
    } else {
        "file://"@ + t
    }
}

/// `c` may stand in a URI scheme after its first letter.
pub fn scheme_char(c: char) -> (r: bool)
    ensures
        r == is_scheme_char(c),
{
    ('a' <= c && c <= 'z') || ('A' <= c && c <= 'Z') || ('0' <= c && c <= '9') || c == '+' || c
        == '-' || c == '.'
}

/// `t` starts with `<scheme>://`.
pub fn scheme_prefixed(t: &str) -> (r: bool)
    ensures
        r == has_scheme_prefix(t@),
{
    let n = t.unicode_len();
    let mut k: usize = 0;
    while k < n && scheme_char(t.get_char(k))
        invariant
            n == t@.len(),
            k <= n,
            forall|j: int| 0 <= j < k ==> is_scheme_char(#[trigger] t@[j]),
        decreases n - k,
    {
        k = k + 1;
    }
    // The run of scheme characters ends at `k`; `:` is not one of them.
    if k >= 1 && n - k >= 3 {
        let c0 = t.get_char(0);
        let first = ('a' <= c0 && c0 <= 'z') || ('A' <= c0 && c0 <= 'Z');
        let r = first && t.get_char(k) == ':' && t.get_char(k + 1) == '/' && t.get_char(k + 2)
            == '/';
        proof {
            if r {
                assert(scheme_at(t@, k as int));
            }
            if !r && has_scheme_prefix(t@) {
                let k2 = choose|k2: int| scheme_at(t@, k2);
                if k2 < k {
                    assert(is_scheme_char(t@[k2]));
                } else if k2 > k {
                    assert(is_scheme_char(t@[k as int]));
                }
            }
        }
        r
    } else {
        proof {
            if has_scheme_prefix(t@) {
                let k2 = choose|k2: int| scheme_at(t@, k2);
                if k2 < k {
                    assert(is_scheme_char(t@[k2]));
                } else {
                    assert(is_scheme_char(t@[k as int]));
                    assert(is_scheme_char(t@[0]));
                }
            }
        }
        false
    }
}

/// Translates a host path into the engine's address form.
pub fn translate_path(path: &str) -> (r: String)
    ensures
        r@ == dsn_for(path@),
{
    let t = trim(path);
    let is_memory = has_prefix(t, ":memory:") && has_prefix(":memory:", t);
    proof {
        if is_memory {
            assert(t@ =~= ":memory:"@);
        } else {
            assert(t@ != ":memory:"@) by {
                if t@ == ":memory:"@ {
                    assert(t@.subrange(0, t@.len() as int) =~= t@);
                }
            }
        }
    }
    if t.unicode_len() == 0 || is_memory {
        "memory://".to_owned()
    } else if scheme_prefixed(t) {
        t.to_owned()
    } else {
        let mut s = "file://".to_owned();
        s.append(t);
        s
    }
}

/// The statements that a script runs, in order: the pieces of the script, trimmed,
/// without the blank ones.
pub open spec fn runnable(pieces: Seq<Seq<char>>) -> Seq<Seq<char>>
    decreases pieces.len(),
{
    if pieces.len() == 0 {
        Seq::empty()
    } else {
        let rest = runnable(pieces.drop_last());
        let t = trimmed(pieces.last());
        if t.len() == 0 {
            rest
        } else {
            rest.push(t)
        }
    }
}

/// The statements that `script` runs: split on its top-level semicolons, trimmed,
/// blank ones left out.
pub fn script_statements(script: &str) -> (r: Vec<String>)
    ensures
        views_of(r@) == runnable(split_statements_spec(script@)),
{
    let pieces = split_sql_statements(script);
    let ghost ps = views_of(pieces@);
    let mut out: Vec<String> = Vec::new();
    let mut i: usize = 0;
    assert(ps.take(0) =~= Seq::<Seq<char>>::empty());
    assert(views_of(out@) =~= Seq::<Seq<char>>::empty());
    while i < pieces.len()
        invariant
            ps == views_of(pieces@),
            ps == split_statements_spec(script@),
            i <= pieces@.len(),
            views_of(out@) == runnable(ps.take(i as int)),
        decreases pieces@.len() - i,
    {
        let t = trim(pieces[i].as_str());
        proof {
            assert(ps.take(i + 1).drop_last() =~= ps.take(i as int));
            assert(ps.take(i + 1).last() == pieces@[i as int]@);
        }
        if t.unicode_len() > 0 {
            let s = t.to_owned();
            proof {
                assert(views_of(out@.push(s)) =~= views_of(out@).push(s@));
            }
            out.push(s);
        }
        i = i + 1;
    }
    assert(ps.take(i as int) =~= ps);
    out
}

/// What a call with parameters `h` gives: the error of `h` if it fails to parse
/// (before the engine is reached), else success or a failure the engine reported.
pub open spec fn call_outcome<T>(h: HostParams, r: Result<T, StoolapError>) -> bool {
    match params_error(h) {
        Some(e) => r == Err::<T, StoolapError>(e),
        None => r matches Err(e) ==> e is Engine,
    }
}

/// What a batch call gives: the error of its parameter sets if they fail to parse or
/// include a named set (before the engine is reached), else a failure of the engine
/// or of a script with no statement, or the saturating total of one row count per set.
pub open spec fn batch_outcome(sets: Seq<HostParams>, r: Result<i64, StoolapError>) -> bool {
    match batch_sets(sets) {
        Err(e) => r == Err::<i64, StoolapError>(e),
        Ok(ps) => {
            &&& r matches Err(e) ==> (e is Engine || e is NoStatement)
            &&& r is Ok ==> exists|o: Seq<Result<i64, StoolapError>>|
                stops_at_failure(o, ps.len() as int) && owned_batch_result(o, r)
        },
    }
}

/// `a + b`, held at the bounds of `i64`.
pub open spec fn sat_add(a: int, b: int) -> int {
    if a + b > i64::MAX {
        i64::MAX as int
    } else if a + b < i64::MIN {
        i64::MIN as int
    } else {
        a + b
    }
}

/// The total of row counts, added in order from zero with `sat_add`.
pub open spec fn sat_sum(c: Seq<i64>) -> int
    decreases c.len(),
{
    if c.len() == 0 {
        0
    } else {
        sat_add(sat_sum(c.drop_last()), c.last() as int)
    }
}

/// `a + b`, held at the bounds of `i64`.
pub fn add_rows(a: i64, b: i64) -> (r: i64)
    ensures
        r == sat_add(a as int, b as int),
{
    match a.checked_add(b) {
        Some(s) => s,
        None => if b > 0 {
            i64::MAX
        } else {
            i64::MIN
        },
    }
}

/// The first statement of `sql`, parsed once.
pub(crate) fn parse_statement(sql: &str) -> (r: Result<stoolap::parser::ast::Statement, StoolapError>)
    ensures
        r matches Err(e) ==> (e is Engine || e is NoStatement),
{
    match parse_program(sql) {
        Ok(mut stmts) => if stmts.len() == 0 {
            Err(StoolapError::NoStatement)
        } else {
            Ok(stmts.remove(0))
        },
        Err(pe) => Err(StoolapError::Engine(parse_error_message(&pe))),
    }
}

/// The result of running statements one after another, from the outcome of each
/// run in order: the first failure, else the saturating total of the row counts.
pub open spec fn batch_result(o: Seq<Result<i64, StoolapError>>) -> Result<i64, StoolapError>
    decreases o.len(),
{
    if o.len() == 0 {
        Ok(0)
    } else {
        match batch_result(o.drop_last()) {
            Err(e) => Err(e),
            Ok(t) => match o.last() {
                Ok(n) => Ok(sat_add(t as int, n as int) as i64),
                Err(e) => Err(e),
            },
        }
    }
}

/// `o` records the runs of at most `n` statements that stop at the first failure:
/// every run but the last succeeded, the last failed if fewer than `n` ran, and every
/// failure is the engine's.
pub open spec fn stops_at_failure(o: Seq<Result<i64, StoolapError>>, n: int) -> bool {
    &&& o.len() <= n
    &&& forall|j: int| 0 <= j < o.len() - 1 ==> (#[trigger] o[j]) is Ok
    &&& o.len() < n ==> (o.len() > 0 && o.last() is Err)
    &&& forall|j: int| 0 <= j < o.len() ==> ((#[trigger] o[j]) matches Err(e) ==> e is Engine)
}

proof fn lemma_batch_result_err_extends(all: Seq<Result<i64, StoolapError>>, n: int)
    requires
        0 <= n <= all.len(),
        batch_result(all.take(n)) is Err,
    ensures
        batch_result(all) == batch_result(all.take(n)),
    decreases all.len() - n,
{
    if n < all.len() {
        assert(all.take(n + 1).drop_last() =~= all.take(n));
        lemma_batch_result_err_extends(all, n + 1);
    } else {
        assert(all.take(n) =~= all);
    }
}

proof fn lemma_batch_result_engine(o: Seq<Result<i64, StoolapError>>)
    requires
        forall|j: int| 0 <= j < o.len() ==> ((#[trigger] o[j]) matches Err(e) ==> e is Engine),
    ensures
        batch_result(o) matches Err(e) ==> e is Engine,
    decreases o.len(),
{
    if o.len() > 0 {
        lemma_batch_result_engine(o.drop_last());
        assert(o.last() == o[o.len() - 1]);
    }
}

/// Folds the outcomes of runs in order: the first failure, else the saturating total
/// of the row counts.
pub fn settle_batch(outcomes: Vec<Result<i64, StoolapError>>) -> (r: Result<i64, StoolapError>)
    ensures
        r == batch_result(outcomes@),
{
    let ghost all = outcomes@;
    let mut rest = outcomes;
    let n = rest.len();
    let mut total: i64 = 0;
    let mut i: usize = 0;
    assert(all.take(0) =~= Seq::<Result<i64, StoolapError>>::empty());
    while rest.len() > 0
        invariant
            all == outcomes@,
            n == all.len(),
            i <= all.len(),
            rest@ == all.skip(i as int),
            batch_result(all.take(i as int)) == Ok::<i64, StoolapError>(total),
        decreases rest@.len(),
    {
        let x = rest.remove(0);
        proof {
            assert(all.take(i + 1).drop_last() =~= all.take(i as int));
            assert(all.take(i + 1).last() == x);
        }
        match x {
            Ok(c) => {
                total = add_rows(total, c);
            },
            Err(e) => {
                proof {
                    assert(batch_result(all.take(i + 1)) == Err::<i64, StoolapError>(e));
                    lemma_batch_result_err_extends(all, i + 1);
                }
                return Err(e);
            },
        }
        assert(rest@ =~= all.skip(i + 1));
        i = i + 1;
    }
    assert(all.take(i as int) =~= all);
    Ok(total)
}

/// The outcome of a batch whose runs all succeeded, once its commit is known: the
/// total, or the commit's failure.
pub fn commit_outcome(total: i64, commit: Result<(), StoolapError>) -> (r: Result<
    i64,
    StoolapError,
>)
    ensures
        r == (match commit {
            Ok(()) => Ok::<i64, StoolapError>(total),
            Err(e) => Err(e),
        }),
{
    match commit {
        Ok(()) => Ok(total),
        Err(e) => Err(e),
    }
}

/// Runs `stmt` once per parameter set inside `tx`, in order, stopping at the first
/// failure and leaving `tx` as the engine left it; the result is `settle_batch` of
/// the outcomes.
pub(crate) fn run_batch_in(
    tx: &mut stoolap::ApiTransaction,
    stmt: &stoolap::parser::ast::Statement,
    sets: &Vec<Vec<SqlValue>>,
) -> (r: Result<i64, StoolapError>)
    requires
        forall|i: int| 0 <= i < sets@.len() ==> values_wf(#[trigger] sets@[i]@),
    ensures
        r matches Err(e) ==> e is Engine,
        exists|o: Seq<Result<i64, StoolapError>>|
            stops_at_failure(o, sets@.len() as int) && r == batch_result(o),
{
    let mut outcomes: Vec<Result<i64, StoolapError>> = Vec::new();
    let mut i: usize = 0;
    while i < sets.len()
        invariant
            forall|j: int| 0 <= j < sets@.len() ==> values_wf(#[trigger] sets@[j]@),
            i <= sets@.len(),
            outcomes@.len() == i,
            forall|j: int| 0 <= j < i ==> (#[trigger] outcomes@[j]) is Ok,
        decreases sets@.len() - i,
    {
        match tx_execute_prepared(tx, stmt, &sets[i]) {
            Ok(c) => {
                outcomes.push(Ok(c));
            },
            Err(e) => {
                outcomes.push(Err(to_py(e)));
                let ghost o = outcomes@;
                assert(stops_at_failure(o, sets@.len() as int));
                proof {
                    lemma_batch_result_engine(o);
                }
                return settle_batch(outcomes);
            },
        }
        i = i + 1;
    }
    let ghost o = outcomes@;
    assert(stops_at_failure(o, sets@.len() as int));
    proof {
        lemma_batch_result_engine(o);
    }
    settle_batch(outcomes)
}

/// The first failure among the outcomes, else success.
pub open spec fn first_failure_spec(o: Seq<Result<i64, StoolapError>>) -> Result<(), StoolapError> {
    match batch_result(o) {
        Ok(_) => Ok(()),
        Err(e) => Err(e),
    }
}

/// The first failure among the outcomes of runs in order, else success.
pub fn first_failure(outcomes: Vec<Result<i64, StoolapError>>) -> (r: Result<(), StoolapError>)
    ensures
        r == first_failure_spec(outcomes@),
{
    match settle_batch(outcomes) {
        Ok(_) => Ok(()),
        Err(e) => Err(e),
    }
}

/// What a batch that owns its transaction gives once the transaction has begun: the
/// failure of a run, with no commit; else the commit's failure; else the total.
pub open spec fn owned_batch_result(
    o: Seq<Result<i64, StoolapError>>,
    r: Result<i64, StoolapError>,
) -> bool {
    &&& batch_result(o) is Err ==> r == batch_result(o)
    &&& r is Ok ==> r == batch_result(o)
    &&& r matches Err(e) ==> e is Engine
}

/// Runs a batch in a fresh transaction of its own, committed once at the end. On a
/// failure the transaction is dropped without commit, which the engine rolls back, and
/// the rows counted so far are discarded.
pub(crate) fn run_owned_batch(
    db: &EngineDatabase,
    stmt: &stoolap::parser::ast::Statement,
    sets: &Vec<Vec<SqlValue>>,
) -> (r: Result<i64, StoolapError>)
    requires
        forall|i: int| 0 <= i < sets@.len() ==> values_wf(#[trigger] sets@[i]@),
    ensures
        r matches Err(e) ==> e is Engine,
        r is Ok ==> exists|o: Seq<Result<i64, StoolapError>>|
            stops_at_failure(o, sets@.len() as int) && owned_batch_result(o, r),
{
    let mut tx = match db_begin(db) {
        Ok(tx) => tx,
        Err(e) => {
            return Err(to_py(e));
        },
    };
    let ran = run_batch_in(&mut tx, stmt, sets);
    let ghost o = choose|o: Seq<Result<i64, StoolapError>>|
        stops_at_failure(o, sets@.len() as int) && ran == batch_result(o);
    let total = match ran {
        Ok(t) => t,
        Err(e) => {
            return Err(e);
        },
    };
    let commit = match tx_commit(&mut tx) {
        Ok(()) => Ok(()),
        Err(e) => Err(to_py(e)),
    };
    let r = commit_outcome(total, commit);
    assert(owned_batch_result(o, r));
    r
}

/// A connection: a shared handle on an engine database instance; prepared statements
/// made from it hold the same handle.
pub struct Database {
    db: Arc<EngineDatabase>,
}

impl Database {
    pub(crate) fn engine(&self) -> &Arc<EngineDatabase> {
        &self.db
    }

    /// Opens the database that `path` names (see `translate_path`).
    pub fn open(path: &str) -> (r: Result<Database, StoolapError>)
        ensures
            r matches Err(e) ==> e is Engine,
    {
        let dsn = translate_path(path);
        match db_open(dsn.as_str()) {
            Ok(db) => Ok(Database { db: Arc::new(db) }),
            Err(e) => Err(to_py(e)),
        }
    }

    /// Runs one statement and returns the number of rows it affected.
    pub fn execute(&self, sql: &str, params: HostParams) -> (r: Result<i64, StoolapError>)
        ensures
            call_outcome(params, r),
    {
        let res = match parse_params(params) {
            Err(e) => {
                return Err(e);
            },
            Ok(BindParams::Positional(p)) => db_execute(&*self.db, sql, &p),
            Ok(BindParams::Named(n)) => db_execute_named(&*self.db, sql, &n),
        };
        match res {
            Ok(n) => Ok(n),
            Err(e) => Err(to_py(e)),
        }
    }

    /// Runs the statements of a script one after another, without parameters and
    /// outside any transaction; stops at the first failure, keeping the effects of the
    /// statements already run.
    pub fn exec(&self, script: &str) -> (r: Result<(), StoolapError>)
        ensures
            runnable(split_statements_spec(script@)).len() == 0 ==> r is Ok,
            exists|o: Seq<Result<i64, StoolapError>>|
                stops_at_failure(o, runnable(split_statements_spec(script@)).len() as int) && r
                    == first_failure_spec(o),
    {
        let stmts = script_statements(script);
        assert(views_of(stmts@).len() == stmts@.len());
        let mut outcomes: Vec<Result<i64, StoolapError>> = Vec::new();
        let mut i: usize = 0;
        while i < stmts.len()
            invariant
                i <= stmts@.len(),
                runnable(split_statements_spec(script@)).len() == stmts@.len(),
                outcomes@.len() == i,
                forall|j: int| 0 <= j < i ==> (#[trigger] outcomes@[j]) is Ok,
            decreases stmts@.len() - i,
        {
            match db_execute(&*self.db, stmts[i].as_str(), &Vec::new()) {
                Ok(c) => {
                    outcomes.push(Ok(c));
                },
                Err(e) => {
                    outcomes.push(Err(to_py(e)));
                    let ghost o = outcomes@;
                    assert(stops_at_failure(o, stmts@.len() as int));
                    return first_failure(outcomes);
                },
            }
            i = i + 1;
        }
        let ghost o = outcomes@;
        assert(stops_at_failure(o, stmts@.len() as int));
        first_failure(outcomes)
    }

    fn run_query(&self, sql: &str, params: HostParams) -> (r: Result<
        stoolap::api::Rows,
        StoolapError,
    >)
        ensures
            call_outcome(params, r),
    {
        let res = match parse_params(params) {
            Err(e) => {
                return Err(e);
            },
            Ok(BindParams::Positional(p)) => db_query(&*self.db, sql, &p),
            Ok(BindParams::Named(n)) => db_query_named(&*self.db, sql, &n),
        };
        match res {
            Ok(rows) => Ok(rows),
            Err(e) => Err(to_py(e)),
        }
    }

    /// Runs a query and reads every row as a record of column names and values.
    pub fn query(&self, sql: &str, params: HostParams) -> (r: Result<
        (Vec<String>, Vec<Vec<(String, SqlValue)>>),
        StoolapError,
    >)
        ensures
            call_outcome(params, r),
    {
        match self.run_query(sql, params) {
            Ok(rows) => rows_to_dicts(rows),
            Err(e) => Err(e),
        }
    }

    /// Runs a query and reads its first row as a record, if there is one.
    pub fn query_one(&self, sql: &str, params: HostParams) -> (r: Result<
        Option<Vec<(String, SqlValue)>>,
        StoolapError,
    >)
        ensures
            call_outcome(params, r),
    {
        match self.run_query(sql, params) {
            Ok(rows) => first_row_to_dict(rows),
            Err(e) => Err(e),
        }
    }

    /// Runs a query and reads its rows in tabular form.
    pub fn query_raw(&self, sql: &str, params: HostParams) -> (r: Result<RowSet, StoolapError>)
        ensures
            call_outcome(params, r),
            r matches Ok(rs) ==> rs.wf(),
    {
        match self.run_query(sql, params) {
            Ok(rows) => rows_to_raw(rows),
            Err(e) => Err(e),
        }
    }

    /// Runs one statement once per positional parameter set, in a transaction of its
    /// own, and returns the total of rows affected. Every set is parsed first; a named
    /// set is rejected before the engine is reached. On any failure nothing is
    /// committed.
    pub fn execute_batch(&self, sql: &str, sets: Vec<HostParams>) -> (r: Result<
        i64,
        StoolapError,
    >)
        ensures
            batch_outcome(sets@, r),
    {
        let all = match positional_sets(sets) {
            Ok(all) => all,
            Err(e) => {
                return Err(e);
            },
        };
        let stmt = match parse_statement(sql) {
            Ok(s) => s,
            Err(e) => {
                return Err(e);
            },
        };
        run_owned_batch(&*self.db, &stmt, &all)
    }

    /// Compiles `sql` once into a statement that can be run many times.
    pub fn prepare(&self, sql: &str) -> (r: Result<PreparedStatement, StoolapError>)
        ensures
            r matches Ok(p) ==> p.sql_view() == sql@,
            r matches Err(e) ==> e is Engine,
    {
        PreparedStatement::new(self, sql)
    }

    /// Begins a transaction.
    pub fn begin(&self) -> (r: Result<Transaction, StoolapError>)
        ensures
            r matches Ok(t) ==> t.is_active(),
            r matches Err(e) ==> e is Engine,
    {
        match db_begin(&*self.db) {
            Ok(tx) => Ok(Transaction::from_tx(tx)),
            Err(e) => Err(to_py(e)),
        }
    }

    /// Closes the database.
    pub fn close(&self) -> (r: Result<(), StoolapError>)
        ensures
            r matches Err(e) ==> e is Engine,
    {
        match db_close(&*self.db) {
            Ok(()) => Ok(()),
            Err(e) => Err(to_py(e)),
        }
    }
}

} // verus!
