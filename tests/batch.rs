use stoolap_bind::database::{commit_outcome, first_failure, settle_batch};
use stoolap_bind::error::StoolapError;
use stoolap_bind::transaction::scope_end;

fn engine(m: &str) -> StoolapError {
    StoolapError::Engine(m.to_string())
}

#[test]
fn counts_are_summed_in_order() {
    assert!(matches!(settle_batch(vec![Ok(1), Ok(1), Ok(1)]), Ok(3)));
    assert!(matches!(settle_batch(vec![]), Ok(0)));
    assert!(matches!(settle_batch(vec![Ok(i64::MAX), Ok(5)]), Ok(i64::MAX)));
}

#[test]
fn first_failure_decides_the_batch() {
    let r = settle_batch(vec![Ok(1), Err(engine("dup")), Err(engine("later"))]);
    assert!(matches!(r, Err(StoolapError::Engine(m)) if m == "dup"));
}

#[test]
fn script_result_is_first_failure() {
    assert!(first_failure(vec![Ok(0), Ok(2)]).is_ok());
    assert!(matches!(first_failure(vec![Ok(0), Err(engine("x"))]), Err(StoolapError::Engine(m)) if m == "x"));
}

#[test]
fn commit_failure_replaces_total() {
    assert!(matches!(commit_outcome(3, Ok(())), Ok(3)));
    assert!(matches!(commit_outcome(3, Err(engine("c"))), Err(StoolapError::Engine(m)) if m == "c"));
}

#[test]
fn clean_scope_passes_commit_failure_on() {
    assert!(matches!(scope_end(false, Err(engine("c"))), Err(StoolapError::Engine(m)) if m == "c"));
    assert!(scope_end(false, Ok(())).is_ok());
    assert!(scope_end(true, Err(engine("r"))).is_ok());
}
