use lbplaylist::error::LbError;
use lbplaylist::feedback::{
    feedback_base_url, feedback_body, feedback_page_continues, feedback_page_url,
    feedback_send_url, filter_unrated, merge_unseen, parse_feedback_page, score_str, Feedback,
};

#[test]
fn test_score_strings() {
    assert_eq!(score_str(Feedback::Love), "1");
    assert_eq!(score_str(Feedback::Hate), "-1");
    assert_eq!(score_str(Feedback::Neutral), "0");
}

#[test]
fn test_feedback_body_text() {
    let body = feedback_body(
        &"36855a5c-abcb-4740-9154-361af8c11ee1".to_string(),
        Feedback::Hate,
    );
    assert_eq!(
        body,
        "{\"recording_mbid\":\"36855a5c-abcb-4740-9154-361af8c11ee1\",\"score\":\"-1\"}"
    );
}

#[test]
fn test_feedback_urls() {
    assert_eq!(
        feedback_send_url(),
        "https://api.listenbrainz.org/1/feedback/recording-feedback"
    );
    assert_eq!(
        feedback_base_url(&"alice".to_string()),
        "https://api.listenbrainz.org/1/feedback/user/alice/get-feedback"
    );
    let page = "https://api.listenbrainz.org/1/feedback/user/alice/get-feedback?count=1000&offset=0"
        .to_string();
    assert_eq!(
        feedback_page_url(&page, Feedback::Love).unwrap(),
        "https://api.listenbrainz.org/1/feedback/user/alice/get-feedback?count=1000&offset=0&score=1"
    );
}

#[test]
fn test_feedback_page_parsing_skips_bad_entries() {
    let text = "{\"count\":3,\"feedback\":[\
        {\"recording_mbid\":\"36855A5C-ABCB-4740-9154-361AF8C11EE1\"},\
        {\"recording_mbid\":null},\
        {\"recording_mbid\":\"not-a-uuid\"}\
    ]}";
    let (count, mbids) = parse_feedback_page(text).unwrap();
    assert_eq!(count, 3);
    assert_eq!(mbids, vec!["36855a5c-abcb-4740-9154-361af8c11ee1"]);
}

#[test]
fn test_feedback_page_malformed() {
    assert_eq!(
        parse_feedback_page("{\"count\":1}"),
        Err(LbError::Transport)
    );
    assert_eq!(
        parse_feedback_page("{\"count\":1,\"feedback\":[{\"recording_mbid\":7}]}"),
        Err(LbError::Transport)
    );
}

#[test]
fn test_pagination_stops_after_empty_page() {
    // first page reports 50 entries, the second reports none: exactly two
    // pages are fetched
    let page1 = {
        let entries: Vec<String> = (0..50)
            .map(|i| {
                format!(
                    "{{\"recording_mbid\":\"36855a5c-abcb-4740-9154-3610000000{:02}\"}}",
                    i
                )
            })
            .collect();
        format!("{{\"count\":50,\"feedback\":[{}]}}", entries.join(","))
    };
    let page2 = "{\"count\":0,\"feedback\":[]}";
    let mut pages_fetched = 0;
    let mut all: Vec<String> = Vec::new();
    for page in [page1.as_str(), page2] {
        pages_fetched += 1;
        let (count, mbids) = parse_feedback_page(page).unwrap();
        if !feedback_page_continues(count) {
            break;
        }
        all.extend(mbids);
    }
    assert_eq!(pages_fetched, 2);
    assert_eq!(all.len(), 50);
}

#[test]
fn test_merge_unseen_collapses_duplicates() {
    let mut all: Vec<String> = vec!["a".to_string(), "b".to_string()];
    let page = vec![
        "b".to_string(),
        "c".to_string(),
        "c".to_string(),
        "a".to_string(),
        "d".to_string(),
    ];
    merge_unseen(&mut all, &page);
    assert_eq!(all, vec!["a", "b", "c", "d"]);
}

#[test]
fn test_merge_unseen_across_pages() {
    let mut all: Vec<String> = Vec::new();
    merge_unseen(&mut all, &vec!["x".to_string(), "y".to_string()]);
    merge_unseen(&mut all, &vec!["y".to_string(), "z".to_string()]);
    assert_eq!(all, vec!["x", "y", "z"]);
}

#[test]
fn test_filter_unrated_keeps_order() {
    let ids = vec!["a".to_string(), "b".to_string(), "c".to_string(), "a".to_string()];
    let given = vec!["b".to_string(), "x".to_string()];
    assert_eq!(filter_unrated(&ids, &given), vec!["a", "c", "a"]);
}

#[test]
fn test_filter_unrated_all_rated() {
    let ids = vec!["a".to_string()];
    let given = vec!["a".to_string()];
    assert!(filter_unrated(&ids, &given).is_empty());
}
