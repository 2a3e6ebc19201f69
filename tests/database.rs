use stoolap_bind::database::{add_rows, translate_path, Database};
use stoolap_bind::error::StoolapError;
use stoolap_bind::params::HostParams;
use stoolap_bind::value::{HostValue, SqlValue};

fn table() -> Database {
    let db = Database::open(":memory:").unwrap();
    db.exec("CREATE TABLE t (id INTEGER PRIMARY KEY, name TEXT)").unwrap();
    db
}

fn ids(vals: &[i64]) -> Vec<HostParams> {
    vals.iter().map(|v| HostParams::Sequence(vec![HostValue::Int(*v)])).collect()
}

fn count(db: &Database) -> i64 {
    let rs = db.query_raw("SELECT COUNT(*) FROM t", HostParams::Absent).unwrap();
    match rs.rows[0][0] {
        SqlValue::Integer(n) => n,
        _ => panic!("expected an integer count"),
    }
}

#[test]
fn paths_translate_to_addresses() {
    assert_eq!(translate_path(""), "memory://");
    assert_eq!(translate_path(":memory:"), "memory://");
    assert_eq!(translate_path("  :memory:  "), "memory://");
    assert_eq!(translate_path("memory://"), "memory://");
    assert_eq!(translate_path("file:///tmp/db"), "file:///tmp/db");
    assert_eq!(translate_path(" ./mydb "), "file://./mydb");
    assert_eq!(translate_path(":memory:x"), "file://:memory:x");
    assert_eq!(translate_path("s3://bucket/db"), "s3://bucket/db");
    assert_eq!(translate_path(" custom+v1.x://a "), "custom+v1.x://a");
    assert_eq!(translate_path("1x://a"), "file://1x://a");
    assert_eq!(translate_path("a:/b"), "file://a:/b");
    assert_eq!(translate_path("\u{3000}x\t"), "file://x");
}

#[test]
fn blank_script_succeeds() {
    let db = table();
    assert!(db.exec("  ;  -- only a comment\n ; /* x */ ").is_ok());
}

#[test]
fn row_totals_saturate() {
    assert_eq!(add_rows(2, 3), 5);
    assert_eq!(add_rows(i64::MAX, 1), i64::MAX);
    assert_eq!(add_rows(i64::MIN, -1), i64::MIN);
}

#[test]
fn batch_commits_every_set() {
    let db = table();
    let n = db.execute_batch("INSERT INTO t (id) VALUES ($1)", ids(&[1, 2, 3])).unwrap();
    assert_eq!(n, 3);
    assert_eq!(count(&db), 3);
}

#[test]
fn batch_failure_discards_earlier_sets() {
    let db = table();
    let r = db.execute_batch("INSERT INTO t (id) VALUES ($1)", ids(&[1, 1, 2]));
    assert!(matches!(r, Err(StoolapError::Engine(_))));
    assert_eq!(count(&db), 0);
}

#[test]
fn batch_with_named_set_touches_nothing() {
    let db = table();
    let mut sets = ids(&[1]);
    sets.push(HostParams::Mapping(vec![("id".to_string(), HostValue::Int(2))]));
    sets.extend(ids(&[3]));
    let r = db.execute_batch("INSERT INTO t (id) VALUES ($1)", sets);
    assert!(matches!(r, Err(StoolapError::NamedInBatch)));
    assert_eq!(count(&db), 0);
}

#[test]
fn batch_without_statement_fails() {
    let db = table();
    let r = db.execute_batch("", ids(&[1]));
    assert!(matches!(r, Err(StoolapError::NoStatement) | Err(StoolapError::Engine(_))));
    assert_eq!(count(&db), 0);
}

#[test]
fn execute_and_query_by_position_and_name() {
    let db = table();
    let n = db
        .execute(
            "INSERT INTO t VALUES ($1, $2)",
            HostParams::Sequence(vec![HostValue::Int(1), HostValue::Str("a".to_string())]),
        )
        .unwrap();
    assert_eq!(n, 1);
    let row = db
        .query_one(
            "SELECT id, name FROM t WHERE id = :id",
            HostParams::Mapping(vec![(":id".to_string(), HostValue::Int(1))]),
        )
        .unwrap()
        .unwrap();
    assert_eq!(row[0].0, "id");
    assert!(matches!(row[0].1, SqlValue::Integer(1)));
    assert_eq!(row[1].0, "name");
    assert!(matches!(&row[1].1, SqlValue::Text(s) if s == "a"));
}

#[test]
fn query_one_without_rows_is_none() {
    let db = table();
    let r = db.query_one("SELECT id FROM t", HostParams::Absent).unwrap();
    assert!(r.is_none());
}

#[test]
fn query_reads_records_in_order() {
    let db = table();
    db.execute_batch("INSERT INTO t (id) VALUES ($1)", ids(&[2, 1])).unwrap();
    let (cols, recs) = db.query("SELECT id FROM t ORDER BY id", HostParams::Absent).unwrap();
    assert_eq!(cols, vec!["id".to_string()]);
    assert_eq!(recs.len(), 2);
    assert!(matches!(recs[0][0].1, SqlValue::Integer(1)));
    assert!(matches!(recs[1][0].1, SqlValue::Integer(2)));
}

#[test]
fn exec_stops_at_first_failure_and_keeps_earlier_effects() {
    let db = table();
    let r = db.exec("INSERT INTO t (id) VALUES (1); INSERT INTO nowhere VALUES (2); INSERT INTO t (id) VALUES (3)");
    assert!(matches!(r, Err(StoolapError::Engine(_))));
    assert_eq!(count(&db), 1);
}

#[test]
fn engine_errors_carry_a_message() {
    let db = table();
    match db.execute("SELEC nonsense", HostParams::Absent) {
        Err(StoolapError::Engine(m)) => assert!(!m.is_empty()),
        _ => panic!("expected an engine error"),
    }
}

#[test]
fn bad_parameters_fail_before_the_engine() {
    let db = table();
    let r = db.execute("INSERT INTO t (id) VALUES ($1)", HostParams::Other("int".to_string()));
    assert!(matches!(r, Err(StoolapError::BadParameters)));
    assert_eq!(count(&db), 0);
}

#[test]
fn values_round_trip_through_engine() {
    let db = Database::open("").unwrap();
    db.exec("CREATE TABLE v (b BOOLEAN, f FLOAT, s TEXT, ts TIMESTAMP)").unwrap();
    let bits = 1.25f64.to_bits();
    db.execute(
        "INSERT INTO v VALUES ($1, $2, $3, $4)",
        HostParams::Sequence(vec![
            HostValue::Bool(true),
            HostValue::Float(bits),
            HostValue::Str("x".to_string()),
            HostValue::DateTime(stoolap_bind::value::HostDateTime {
                fields: stoolap_bind::value::DateFields {
                    year: 2024, month: 1, day: 1, hour: 12, minute: 0, second: 0, micro: 5,
                },
                zone: stoolap_bind::value::Zone::Naive,
                epoch_micros: None,
                iso: String::new(),
            }),
        ]),
    )
    .unwrap();
    let rs = db.query_raw("SELECT b, f, s, ts FROM v", HostParams::Absent).unwrap();
    assert_eq!(rs.columns.len(), 4);
    assert!(matches!(rs.rows[0][0], SqlValue::Boolean(true)));
    assert!(matches!(rs.rows[0][1], SqlValue::Float(b) if b == bits));
    assert!(matches!(&rs.rows[0][2], SqlValue::Text(s) if s == "x"));
    assert!(matches!(rs.rows[0][3], SqlValue::Timestamp(1704110400000005)));
}

#[test]
fn prepared_statement_reuses_plan_with_fresh_bindings() {
    let db = table();
    db.execute_batch("INSERT INTO t (id, name) VALUES ($1, 'n')", ids(&[1, 2])).unwrap();
    let stmt = db.prepare("SELECT id FROM t WHERE id = $1").unwrap();
    assert_eq!(stmt.sql(), "SELECT id FROM t WHERE id = $1");
    let (_, a) = stmt.query(HostParams::Sequence(vec![HostValue::Int(1)])).unwrap();
    let (_, b) = stmt.query(HostParams::Sequence(vec![HostValue::Int(2)])).unwrap();
    let (_, c) = stmt.query(HostParams::Sequence(vec![HostValue::Int(9)])).unwrap();
    assert!(matches!(a[..], [ref r] if matches!(r[0].1, SqlValue::Integer(1))));
    assert!(matches!(b[..], [ref r] if matches!(r[0].1, SqlValue::Integer(2))));
    assert!(c.is_empty());
}

#[test]
fn prepared_batch_is_all_or_nothing() {
    let db = table();
    let stmt = db.prepare("INSERT INTO t (id) VALUES ($1)").unwrap();
    assert_eq!(stmt.execute_batch(ids(&[1, 2, 3])).unwrap(), 3);
    assert!(matches!(stmt.execute_batch(ids(&[4, 1, 5])), Err(StoolapError::Engine(_))));
    assert_eq!(count(&db), 3);
    assert_eq!(stmt.execute(HostParams::Sequence(vec![HostValue::Int(6)])).unwrap(), 1);
    assert_eq!(count(&db), 4);
}

#[test]
fn prepare_of_bad_sql_fails() {
    let db = table();
    assert!(matches!(db.prepare("SELEC 1"), Err(StoolapError::Engine(_))));
}
