use stoolap_bind::database::Database;
use stoolap_bind::error::StoolapError;
use stoolap_bind::params::HostParams;
use stoolap_bind::value::{HostValue, SqlValue};

fn table() -> Database {
    let db = Database::open(":memory:").unwrap();
    db.exec("CREATE TABLE t (id INTEGER PRIMARY KEY)").unwrap();
    db
}

fn one(v: i64) -> HostParams {
    HostParams::Sequence(vec![HostValue::Int(v)])
}

fn count(db: &Database) -> i64 {
    let rs = db.query_raw("SELECT COUNT(*) FROM t", HostParams::Absent).unwrap();
    match rs.rows[0][0] {
        SqlValue::Integer(n) => n,
        _ => panic!("expected an integer count"),
    }
}

#[test]
fn closed_after_commit_rejects_everything() {
    let db = table();
    let mut tx = db.begin().unwrap();
    assert!(tx.active());
    tx.execute("INSERT INTO t VALUES ($1)", one(1)).unwrap();
    tx.commit().unwrap();
    assert!(!tx.active());
    assert!(matches!(tx.execute("INSERT INTO t VALUES ($1)", one(2)), Err(StoolapError::Inactive)));
    assert!(matches!(tx.query("SELECT * FROM t", HostParams::Absent), Err(StoolapError::Inactive)));
    assert!(matches!(tx.query_one("SELECT * FROM t", HostParams::Absent), Err(StoolapError::Inactive)));
    assert!(matches!(tx.query_raw("SELECT * FROM t", HostParams::Absent), Err(StoolapError::Inactive)));
    assert!(matches!(
        tx.execute_batch("INSERT INTO t VALUES ($1)", vec![one(3)]),
        Err(StoolapError::Inactive)
    ));
    assert!(matches!(tx.commit(), Err(StoolapError::Inactive)));
    assert!(matches!(tx.rollback(), Err(StoolapError::Inactive)));
    assert_eq!(count(&db), 1);
}

#[test]
fn closed_after_rollback_rejects_everything() {
    let db = table();
    let mut tx = db.begin().unwrap();
    tx.execute("INSERT INTO t VALUES ($1)", one(1)).unwrap();
    tx.rollback().unwrap();
    assert!(matches!(tx.execute("INSERT INTO t VALUES ($1)", one(2)), Err(StoolapError::Inactive)));
    assert!(matches!(tx.commit(), Err(StoolapError::Inactive)));
    assert_eq!(count(&db), 0);
}

#[test]
fn caller_owned_batch_leaves_effects_pending() {
    let db = table();
    let mut tx = db.begin().unwrap();
    let r = tx.execute_batch("INSERT INTO t VALUES ($1)", vec![one(1), one(1), one(2)]);
    assert!(matches!(r, Err(StoolapError::Engine(_))));
    assert!(tx.active());
    let rs = tx.query_raw("SELECT COUNT(*) FROM t", HostParams::Absent).unwrap();
    assert!(matches!(rs.rows[0][0], SqlValue::Integer(1)));
    tx.commit().unwrap();
    assert_eq!(count(&db), 1);
}

#[test]
fn caller_owned_batch_sums_rows() {
    let db = table();
    let mut tx = db.begin().unwrap();
    let n = tx.execute_batch("INSERT INTO t VALUES ($1)", vec![one(1), one(2)]).unwrap();
    assert_eq!(n, 2);
    tx.commit().unwrap();
    assert_eq!(count(&db), 2);
}

#[test]
fn clean_scope_commits() {
    let db = table();
    let mut tx = db.begin().unwrap();
    tx.execute("INSERT INTO t VALUES ($1)", one(1)).unwrap();
    tx.exit_scope(false).unwrap();
    assert!(!tx.active());
    assert_eq!(count(&db), 1);
}

#[test]
fn failed_scope_rolls_back() {
    let db = table();
    let mut tx = db.begin().unwrap();
    tx.execute("INSERT INTO t VALUES ($1)", one(1)).unwrap();
    assert!(tx.exit_scope(true).is_ok());
    assert!(!tx.active());
    assert_eq!(count(&db), 0);
    assert!(tx.exit_scope(false).is_ok());
}

#[test]
fn usage_error_on_closed_handle_prefers_parameters() {
    let db = table();
    let mut tx = db.begin().unwrap();
    tx.commit().unwrap();
    let r = tx.execute("SELECT 1", HostParams::Other("int".to_string()));
    assert!(matches!(r, Err(StoolapError::BadParameters)));
}
