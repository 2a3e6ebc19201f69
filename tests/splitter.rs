use stoolap_bind::database::script_statements;
use stoolap_bind::splitter::split_sql_statements;

#[test]
fn line_comment_semicolon_is_not_a_delimiter() {
    let r = split_sql_statements("SELECT 1; -- c ; \n SELECT 2;");
    assert_eq!(r, vec!["SELECT 1".to_string(), " \n SELECT 2".to_string()]);
}

#[test]
fn semicolon_inside_quotes_is_ignored() {
    let r = split_sql_statements("INSERT INTO t VALUES ('a;b')");
    assert_eq!(r, vec!["INSERT INTO t VALUES ('a;b')".to_string()]);
}

#[test]
fn double_quotes_and_block_comments_hide_semicolons() {
    let r = split_sql_statements("SELECT \"a;b\" /* x; y */ FROM t; SELECT 2");
    assert_eq!(r, vec!["SELECT \"a;b\"  FROM t".to_string(), " SELECT 2".to_string()]);
}

#[test]
fn escaped_quote_does_not_close_literal() {
    let r = split_sql_statements("SELECT 'a\\';b'; SELECT 3");
    assert_eq!(r, vec!["SELECT 'a\\';b'".to_string(), " SELECT 3".to_string()]);
}

#[test]
fn dashes_without_gap_are_not_a_comment() {
    let r = split_sql_statements("SELECT 1--2; SELECT 3");
    assert_eq!(r, vec!["SELECT 1--2".to_string(), " SELECT 3".to_string()]);
}

#[test]
fn any_whitespace_after_dashes_opens_a_comment() {
    let r = split_sql_statements("SELECT 1;--\u{c}x;y\nSELECT 2");
    assert_eq!(r, vec!["SELECT 1".to_string(), "\nSELECT 2".to_string()]);
}

#[test]
fn line_comment_at_end_of_input() {
    let r = split_sql_statements("SELECT 1;--");
    assert_eq!(r, vec!["SELECT 1".to_string()]);
}

#[test]
fn empty_script_has_no_statements() {
    assert!(split_sql_statements("").is_empty());
    assert_eq!(split_sql_statements(";;"), vec![String::new(), String::new()]);
}

#[test]
fn script_statements_are_trimmed_and_non_blank() {
    let r = script_statements("  CREATE TABLE t (id INTEGER) ;  ; \n SELECT 1 ;  ");
    assert_eq!(r, vec!["CREATE TABLE t (id INTEGER)".to_string(), "SELECT 1".to_string()]);
}
