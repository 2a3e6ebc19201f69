use stoolap_bind::rows::{dicts_from_cells, fill_cells, fill_record, raw_from_cells, settle_value};
use stoolap_bind::value::{SqlValue, MAX_INSTANT_MICROS};

#[test]
fn scalar_form_comes_first() {
    let v = settle_value(Some(SqlValue::Integer(4)), Some(vec![1]), Some("[]".to_string()), String::new());
    assert!(matches!(v, SqlValue::Integer(4)));
}

#[test]
fn vector_then_json_then_display() {
    let v = settle_value(None, Some(vec![7, 8]), Some("[]".to_string()), String::new());
    assert!(matches!(v, SqlValue::Vector(b) if b == vec![7, 8]));
    let v = settle_value(None, None, Some("{\"a\":1}".to_string()), String::new());
    assert!(matches!(v, SqlValue::Json(j) if j == "{\"a\":1}"));
    let v = settle_value(None, None, None, "shown".to_string());
    assert!(matches!(v, SqlValue::Text(s) if s == "shown"));
}

#[test]
fn timestamp_past_range_is_held_at_latest_instant() {
    let v = settle_value(Some(SqlValue::Timestamp(MAX_INSTANT_MICROS + 5)), None, None, String::new());
    assert!(matches!(v, SqlValue::Timestamp(m) if m == MAX_INSTANT_MICROS));
    let v = settle_value(Some(SqlValue::Timestamp(3)), None, None, String::new());
    assert!(matches!(v, SqlValue::Timestamp(3)));
}

#[test]
fn missing_cells_read_as_null() {
    let r = fill_cells(vec![Some(SqlValue::Integer(1)), None], 3);
    assert_eq!(r.len(), 3);
    assert!(matches!(r[0], SqlValue::Integer(1)));
    assert!(matches!(r[1], SqlValue::Null));
    assert!(matches!(r[2], SqlValue::Null));
}

#[test]
fn record_pairs_columns_with_cells() {
    let cols = vec!["a".to_string(), "b".to_string()];
    let r = fill_record(&cols, vec![None, Some(SqlValue::Boolean(true))]);
    assert_eq!(r.len(), 2);
    assert_eq!(r[0].0, "a");
    assert!(matches!(r[0].1, SqlValue::Null));
    assert_eq!(r[1].0, "b");
    assert!(matches!(r[1].1, SqlValue::Boolean(true)));
}

#[test]
fn raw_result_keeps_columns_and_cells() {
    let cols = vec!["x".to_string(), "y".to_string()];
    let rs = raw_from_cells(
        cols.clone(),
        vec![vec![Some(SqlValue::Integer(1)), Some(SqlValue::Text("a".to_string()))], vec![None]],
    );
    assert_eq!(rs.columns, cols);
    assert_eq!(rs.rows.len(), 2);
    assert!(matches!(rs.rows[0][..], [SqlValue::Integer(1), SqlValue::Text(ref s)] if s == "a"));
    assert!(matches!(rs.rows[1][..], [SqlValue::Null, SqlValue::Null]));
}

#[test]
fn records_keep_columns_and_cells() {
    let cols = vec!["x".to_string()];
    let (c, recs) = dicts_from_cells(cols.clone(), vec![vec![Some(SqlValue::Integer(5))], vec![]]);
    assert_eq!(c, cols);
    assert_eq!(recs.len(), 2);
    assert_eq!(recs[0][0].0, "x");
    assert!(matches!(recs[0][0].1, SqlValue::Integer(5)));
    assert!(matches!(recs[1][0].1, SqlValue::Null));
}
