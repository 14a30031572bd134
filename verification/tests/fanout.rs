use lbplaylist::error::LbError;
use lbplaylist::fanout::{nonempty_batch, collect_outcomes};

#[test]
fn test_fanout_counts_add_up() {
    let outcomes: Vec<Option<u32>> = vec![Some(1), None, Some(2), None, None, Some(3)];
    let result = collect_outcomes(outcomes);
    assert_eq!(result.successes, vec![1, 2, 3]);
    assert_eq!(result.failure_count, 3);
    assert_eq!(result.successes.len() + result.failure_count, 6);
}

#[test]
fn test_fanout_one_failure_among_five() {
    let outcomes: Vec<Option<String>> = vec![
        Some("a".to_string()),
        Some("b".to_string()),
        None,
        Some("c".to_string()),
        Some("d".to_string()),
    ];
    let result = collect_outcomes(outcomes);
    assert_eq!(result.successes.len(), 4);
    assert_eq!(result.failure_count, 1);
    assert_eq!(result.successes, vec!["a", "b", "c", "d"]);
}

#[test]
fn test_fanout_empty_batch() {
    let outcomes: Vec<Option<u32>> = vec![];
    let result = collect_outcomes(outcomes);
    assert_eq!(result.successes.len(), 0);
    assert_eq!(result.failure_count, 0);
}

#[test]
fn test_nonempty_batch_aborts_on_empty() {
    assert_eq!(nonempty_batch(0), Err(LbError::EmptyBatch));
}

#[test]
fn test_nonempty_batch_passes_nonempty() {
    assert_eq!(nonempty_batch(4), Ok(4));
}
