use stoolap_bind::error::StoolapError;
use stoolap_bind::params::{normalize_name, parse_params, positional_sets, BindParams, HostParams};
use stoolap_bind::value::{HostValue, SqlValue};

#[test]
fn markers_normalize_to_bare_name() {
    assert_eq!(normalize_name(":id"), "id");
    assert_eq!(normalize_name("@id"), "id");
    assert_eq!(normalize_name("$id"), "id");
    assert_eq!(normalize_name("id"), "id");
}

#[test]
fn marker_runs_strip_in_order() {
    assert_eq!(normalize_name("::@@$$x"), "x");
    assert_eq!(normalize_name("$:x"), ":x");
    assert_eq!(normalize_name("a:b"), "a:b");
    assert_eq!(normalize_name(""), "");
}

#[test]
fn absent_params_bind_nothing() {
    match parse_params(HostParams::Absent) {
        Ok(BindParams::Positional(v)) => assert!(v.is_empty()),
        _ => panic!("expected empty positional parameters"),
    }
}

#[test]
fn sequence_binds_in_order() {
    let h = HostParams::Sequence(vec![
        HostValue::Int(7),
        HostValue::Str("x".to_string()),
        HostValue::Bool(true),
        HostValue::Null,
    ]);
    match parse_params(h) {
        Ok(BindParams::Positional(v)) => {
            assert_eq!(v.len(), 4);
            assert!(matches!(v[0], SqlValue::Integer(7)));
            assert!(matches!(&v[1], SqlValue::Text(s) if s == "x"));
            assert!(matches!(v[2], SqlValue::Boolean(true)));
            assert!(matches!(v[3], SqlValue::Null));
        }
        _ => panic!("expected positional parameters"),
    }
}

#[test]
fn mapping_binds_by_normalized_name_last_wins() {
    let h = HostParams::Mapping(vec![
        (":id".to_string(), HostValue::Int(1)),
        ("name".to_string(), HostValue::Str("a".to_string())),
        ("$id".to_string(), HostValue::Int(2)),
    ]);
    match parse_params(h) {
        Ok(BindParams::Named(n)) => {
            assert_eq!(n.len(), 2);
            assert_eq!(n[0].0, "id");
            assert!(matches!(n[0].1, SqlValue::Integer(2)));
            assert_eq!(n[1].0, "name");
        }
        _ => panic!("expected named parameters"),
    }
}

#[test]
fn other_params_are_a_usage_error() {
    assert!(matches!(
        parse_params(HostParams::Other("int".to_string())),
        Err(StoolapError::BadParameters)
    ));
}

#[test]
fn unsupported_value_fails_with_its_type() {
    let h = HostParams::Sequence(vec![
        HostValue::Int(1),
        HostValue::Unsupported("set".to_string()),
        HostValue::Unsupported("bytes".to_string()),
    ]);
    match parse_params(h) {
        Err(StoolapError::UnsupportedType(t)) => assert_eq!(t, "set"),
        _ => panic!("expected an unsupported type error"),
    }
}

#[test]
fn batch_rejects_named_set_among_positional() {
    let sets = vec![
        HostParams::Sequence(vec![HostValue::Int(1)]),
        HostParams::Mapping(vec![("a".to_string(), HostValue::Int(2))]),
        HostParams::Sequence(vec![HostValue::Int(3)]),
    ];
    assert!(matches!(positional_sets(sets), Err(StoolapError::NamedInBatch)));
}

#[test]
fn batch_sets_keep_order() {
    let sets = vec![
        HostParams::Sequence(vec![HostValue::Int(1)]),
        HostParams::Absent,
        HostParams::Sequence(vec![HostValue::Int(3), HostValue::Int(4)]),
    ];
    let r = positional_sets(sets).unwrap();
    assert_eq!(r.len(), 3);
    assert!(matches!(r[0][..], [SqlValue::Integer(1)]));
    assert!(r[1].is_empty());
    assert!(matches!(r[2][..], [SqlValue::Integer(3), SqlValue::Integer(4)]));
}
