use lbplaylist::playlist::SimpleExistingPlaylistResponse;
use lbplaylist::reconcile::{
    decide, find_existing, insertion_chunks, next_free_title, overwrite_delete_span,
    DuplicatePolicy, ReconciliationDecision,
};

fn listing(titles: &[&str]) -> Vec<SimpleExistingPlaylistResponse> {
    titles
        .iter()
        .enumerate()
        .map(|(i, t)| SimpleExistingPlaylistResponse {
            title: t.to_string(),
            identifier: format!("id-{}", i),
        })
        .collect()
}

#[test]
fn test_rename_picks_first_free_suffix() {
    let ps = listing(&["X", "X_1"]);
    let title = next_free_title(&ps, &"X".to_string());
    assert_eq!(title, "X_2");
}

#[test]
fn test_rename_skips_a_gap_correctly() {
    let ps = listing(&["X", "X_2"]);
    let title = next_free_title(&ps, &"X".to_string());
    assert_eq!(title, "X_1");
}

#[test]
fn test_rename_policy_decision() {
    let ps = listing(&["X", "X_1"]);
    match decide(DuplicatePolicy::Rename, &ps, &"X".to_string()) {
        ReconciliationDecision::RenameAndCreate { title } => assert_eq!(title, "X_2"),
        _ => panic!("expected a rename decision"),
    }
}

#[test]
fn test_no_collision_creates_with_desired_title() {
    let ps = listing(&["Other", "Names"]);
    match decide(DuplicatePolicy::Abort, &ps, &"Mine".to_string()) {
        ReconciliationDecision::CreateNew { title } => assert_eq!(title, "Mine"),
        _ => panic!("expected a create decision"),
    }
}

#[test]
fn test_allow_duplicate_creates_anyway() {
    let ps = listing(&["Mine"]);
    match decide(DuplicatePolicy::AllowDuplicate, &ps, &"Mine".to_string()) {
        ReconciliationDecision::CreateNew { title } => assert_eq!(title, "Mine"),
        _ => panic!("expected a create decision"),
    }
}

#[test]
fn test_overwrite_targets_first_exact_match() {
    let ps = listing(&["A", "Mine", "B", "Mine"]);
    match decide(DuplicatePolicy::Overwrite, &ps, &"Mine".to_string()) {
        ReconciliationDecision::OverwriteExisting { existing_id } => {
            assert_eq!(existing_id, "id-1")
        }
        _ => panic!("expected an overwrite decision"),
    }
}

#[test]
fn test_abort_policy_aborts_on_collision() {
    let ps = listing(&["Mine"]);
    assert!(matches!(
        decide(DuplicatePolicy::Abort, &ps, &"Mine".to_string()),
        ReconciliationDecision::Abort
    ));
}

#[test]
fn test_find_existing_first_match() {
    let ps = listing(&["A", "B", "B"]);
    assert_eq!(find_existing(&ps, &"B".to_string()), Some(1));
    assert_eq!(find_existing(&ps, &"C".to_string()), None);
}

#[test]
fn test_overwrite_delete_span() {
    assert_eq!(overwrite_delete_span(0), None);
    assert_eq!(overwrite_delete_span(7), Some((0, 8)));
}

#[test]
fn test_chunking_preserves_order_and_sizes() {
    let ids: Vec<String> = (0..250).map(|i| format!("id{}", i)).collect();
    let chunks = insertion_chunks(&ids);
    assert_eq!(chunks.len(), 3);
    assert_eq!(chunks[0].len(), 100);
    assert_eq!(chunks[1].len(), 100);
    assert_eq!(chunks[2].len(), 50);
    let flat: Vec<String> = chunks.into_iter().flatten().collect();
    assert_eq!(flat, ids);
}

#[test]
fn test_chunking_small_batch_is_one_chunk() {
    let ids: Vec<String> = vec!["a".to_string(), "b".to_string()];
    let chunks = insertion_chunks(&ids);
    assert_eq!(chunks.len(), 1);
    assert_eq!(chunks[0], vec!["a", "b"]);
}
