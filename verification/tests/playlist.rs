use lbplaylist::error::LbError;
use lbplaylist::playlist::{
    delete_items_body, get_current_user, parse_submission_response, playlist_add_url,
    playlist_body, playlist_delete_url, playlist_detail_url, playlists_listing_url,
    FullExistingPlaylistResponse, SimpleExistingPlaylistResponse,
};

#[test]
fn test_serialise_playlist_no_tracks() {
    let body = playlist_body(&"Example".to_string(), &Vec::new(), false);
    assert_eq!(
        body,
        "{\"playlist\":{\"extension\":{\"https://musicbrainz.org/doc/jspf#playlist\":\
         {\"public\":false}},\"title\":\"Example\",\"track\":[]}}"
    );
}

#[test]
fn test_serialise_playlist_one_track() {
    let ids = vec!["36855a5c-abcb-4740-9154-361af8c11ee1".to_string()];
    let body = playlist_body(&"Example".to_string(), &ids, false);
    assert_eq!(
        body,
        "{\"playlist\":{\"extension\":{\"https://musicbrainz.org/doc/jspf#playlist\":\
         {\"public\":false}},\"title\":\"Example\",\"track\":[{\"identifier\":\
         \"https://musicbrainz.org/recording/36855a5c-abcb-4740-9154-361af8c11ee1\"}]}}"
    );
}

#[test]
fn test_serialise_playlist_two_tracks() {
    let ids = vec![
        "36855a5c-abcb-4740-9154-361af8c11ee1".to_string(),
        "00066722-b23a-48e5-82e4-0470c82a2705".to_string(),
    ];
    let body = playlist_body(&"Example".to_string(), &ids, false);
    assert_eq!(
        body,
        "{\"playlist\":{\"extension\":{\"https://musicbrainz.org/doc/jspf#playlist\":\
         {\"public\":false}},\"title\":\"Example\",\"track\":[{\"identifier\":\
         \"https://musicbrainz.org/recording/36855a5c-abcb-4740-9154-361af8c11ee1\"},\
         {\"identifier\":\"https://musicbrainz.org/recording/00066722-b23a-48e5-82e4-0470c82a2705\"}]}}"
    );
}

#[test]
fn test_serialise_playlist_public_flag_and_escaping() {
    let body = playlist_body(&"A \"B\"\n".to_string(), &Vec::new(), true);
    assert_eq!(
        body,
        "{\"playlist\":{\"extension\":{\"https://musicbrainz.org/doc/jspf#playlist\":\
         {\"public\":true}},\"title\":\"A \\\"B\\\"\\n\",\"track\":[]}}"
    );
}

#[test]
fn test_listing_from_json() {
    let text = "{\"playlists\":[\
        {\"playlist\":{\"identifier\":\"https://listenbrainz.org/playlist/36855A5C-ABCB-4740-9154-361AF8C11EE1\",\"title\":\"First\"}},\
        {\"playlist\":{\"identifier\":\"00066722-b23a-48e5-82e4-0470c82a2705\",\"title\":\"Second\"}}\
    ]}";
    let ps = SimpleExistingPlaylistResponse::from_json(text).unwrap();
    assert_eq!(ps.len(), 2);
    assert_eq!(ps[0].title, "First");
    // the identifier URI's last segment, canonicalized to lowercase
    assert_eq!(ps[0].identifier, "36855a5c-abcb-4740-9154-361af8c11ee1");
    assert_eq!(ps[1].title, "Second");
    assert_eq!(ps[1].identifier, "00066722-b23a-48e5-82e4-0470c82a2705");
}

#[test]
fn test_listing_without_playlists_array_is_empty() {
    let ps = SimpleExistingPlaylistResponse::from_json("{}").unwrap();
    assert!(ps.is_empty());
}

#[test]
fn test_listing_malformed_is_transport_error() {
    assert_eq!(
        SimpleExistingPlaylistResponse::from_json("{\"playlists\": [{\"playlist\": 3}]}"),
        Err(LbError::Transport)
    );
    assert_eq!(
        SimpleExistingPlaylistResponse::from_json("not json"),
        Err(LbError::Transport)
    );
}

#[test]
fn test_full_playlist_from_json() {
    let text = "{\"playlist\":{\"identifier\":\
        \"https://listenbrainz.org/playlist/36855a5c-abcb-4740-9154-361af8c11ee1\",\
        \"track\":[{\"a\":1},{\"a\":2},{\"a\":3}]}}";
    let p = FullExistingPlaylistResponse::from_json(text).unwrap();
    assert_eq!(p.identifier, "36855a5c-abcb-4740-9154-361af8c11ee1");
    assert_eq!(p.number_of_tracks, 3);
}

#[test]
fn test_submission_response() {
    let p = parse_submission_response(
        "{\"playlist_mbid\":\"36855a5c-abcb-4740-9154-361af8c11ee1\"}",
    )
    .unwrap();
    assert_eq!(p.playlist_mbid, "36855a5c-abcb-4740-9154-361af8c11ee1");
    assert_eq!(
        parse_submission_response("{\"playlist_mbid\":\"zzz\"}"),
        Err(LbError::Transport)
    );
}

#[test]
fn test_current_user_from_validation() {
    assert_eq!(
        get_current_user("{\"code\":200,\"user_name\":\"alice\"}").unwrap(),
        "alice"
    );
    assert_eq!(
        get_current_user("{\"code\":401,\"user_name\":\"alice\"}"),
        Err(LbError::Auth)
    );
    assert_eq!(get_current_user("{\"code\":200}"), Err(LbError::Transport));
}

#[test]
fn test_delete_items_body() {
    assert_eq!(delete_items_body(0, 8), "{\"count\":8,\"index\":0}");
}

#[test]
fn test_playlist_urls() {
    let id = "36855a5c-abcb-4740-9154-361af8c11ee1".to_string();
    assert_eq!(
        playlist_detail_url(&id),
        "https://api.listenbrainz.org/1/playlist/36855a5c-abcb-4740-9154-361af8c11ee1"
    );
    assert_eq!(
        playlist_delete_url(&id),
        "https://api.listenbrainz.org/1/playlist/36855a5c-abcb-4740-9154-361af8c11ee1/item/delete"
    );
    assert_eq!(
        playlist_add_url(&id),
        "https://api.listenbrainz.org/1/playlist/36855a5c-abcb-4740-9154-361af8c11ee1/item/add/0"
    );
    assert_eq!(
        playlists_listing_url(&"alice".to_string()).unwrap(),
        "https://api.listenbrainz.org/1/user/alice/playlists?count=4294967295"
    );
}
