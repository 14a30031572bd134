use lbplaylist::artist::ArtistData;
use lbplaylist::error::LbError;
use lbplaylist::track::{
    after_combined_search, after_direct_lookup, album_option, audio_id_shortcut,
    build_track_query, first_recording_candidate, lookup_result, lookup_url,
    recording_search_query, recording_search_url, AudioFileData, AudioIDData, LookupOutcome,
    TrackStep,
};

#[test]
fn test_lookup_url_encodes_query() {
    assert_eq!(
        lookup_url(&"Ed Sheeran".to_string(), &"Perfect".to_string()).unwrap(),
        "https://api.listenbrainz.org/1/metadata/lookup/?artist_name=Ed+Sheeran&recording_name=Perfect"
    );
}

#[test]
fn test_lookup_result_found() {
    let r = lookup_result("{\"recording_mbid\":\"b84dd2d1-2bf1-4fcc-aadc-6cc39c36ba35\",\"recording_name\":\"Perfect\"}");
    match r.unwrap() {
        LookupOutcome::Found(id) => assert_eq!(id, "b84dd2d1-2bf1-4fcc-aadc-6cc39c36ba35"),
        LookupOutcome::EmptyPage => panic!("expected an identifier"),
    }
}

#[test]
fn test_lookup_result_empty_page() {
    assert!(matches!(lookup_result("{}").unwrap(), LookupOutcome::EmptyPage));
    assert!(matches!(lookup_result("  { }  ").unwrap(), LookupOutcome::EmptyPage));
}

#[test]
fn test_lookup_result_malformed() {
    assert!(matches!(lookup_result("[1,2]"), Err(LbError::Transport)));
    assert!(matches!(
        lookup_result("{\"recording_name\":\"x\"}"),
        Err(LbError::Transport)
    ));
    assert!(matches!(lookup_result("nonsense"), Err(LbError::Transport)));
}

#[test]
fn test_lookup_result_decodes_escapes() {
    let r = lookup_result("{\"recording_mbid\":\"\\u0041B\\n\\\"\"}");
    match r.unwrap() {
        LookupOutcome::Found(id) => assert_eq!(id, "AB\n\""),
        LookupOutcome::EmptyPage => panic!("expected an identifier"),
    }
}

#[test]
fn test_lookup_result_decodes_surrogate_pair() {
    let r = lookup_result("{\"recording_mbid\":\"\\uD83D\\uDE00\"}");
    match r.unwrap() {
        LookupOutcome::Found(id) => assert_eq!(id, "\u{1F600}"),
        LookupOutcome::EmptyPage => panic!("expected an identifier"),
    }
}

#[test]
fn test_direct_lookup_escalates_on_empty() {
    assert!(matches!(
        after_direct_lookup(LookupOutcome::EmptyPage),
        TrackStep::RetryWithArtist
    ));
    match after_direct_lookup(LookupOutcome::Found("x".to_string())) {
        TrackStep::Resolved(id) => assert_eq!(id, "x"),
        TrackStep::RetryWithArtist => panic!("expected the identifier"),
    }
}

#[test]
fn test_combined_search_not_found() {
    assert_eq!(after_combined_search(None), Err(LbError::ResolutionNotFound));
    assert_eq!(
        after_combined_search(Some("x".to_string())),
        Ok("x".to_string())
    );
}

#[test]
fn test_recording_search_query_text() {
    let q = build_track_query(
        &AudioFileData {
            artist: "Ed \"The Sheer\" Sheeran".to_string(),
            title: "Perfect Duet".to_string(),
            album: Some("Divide".to_string()),
        },
        &lbplaylist::artist::ArtistData {
            artist_tag: "Ed Sheeran".to_string(),
            mbid: Some("b8a7c51f-362c-4dcb-a259-bc6e0095f0a6".to_string()),
        },
    );
    assert_eq!(
        recording_search_query(&q),
        "arid:\"b8a7c51f-362c-4dcb-a259-bc6e0095f0a6\" AND recording:\"Perfect Duet\" AND release:\"Divide\""
    );
    let q = build_track_query(
        &AudioFileData {
            artist: "Ed \"The Sheer\" Sheeran".to_string(),
            title: "Perfect".to_string(),
            album: None,
        },
        &lbplaylist::artist::ArtistData {
            artist_tag: "Ed Sheeran".to_string(),
            mbid: None,
        },
    );
    // the quotes inside the raw artist text are escaped in the query term
    assert_eq!(
        recording_search_query(&q),
        "artist:\"Ed \\\"The Sheer\\\" Sheeran\" AND recording:\"Perfect\""
    );
}

#[test]
fn test_recording_search_url_shape() {
    let q = build_track_query(
        &AudioFileData {
            artist: "A".to_string(),
            title: "T".to_string(),
            album: None,
        },
        &lbplaylist::artist::ArtistData {
            artist_tag: "A".to_string(),
            mbid: None,
        },
    );
    let url = recording_search_url(&q).unwrap();
    assert!(url.starts_with("https://musicbrainz.org/ws/2/recording?query="));
    assert!(url.ends_with("&fmt=json"));
    assert!(url.contains("recording"));
}

#[test]
fn test_first_recording_candidate() {
    let text = "{\"count\":2,\"recordings\":[{\"id\":\"9ae71082-ac47-4b9c-a12b-a67fff75784a\"},{\"id\":\"zzz\"}]}";
    assert_eq!(
        first_recording_candidate(text).unwrap().as_deref(),
        Some("9ae71082-ac47-4b9c-a12b-a67fff75784a")
    );
    assert_eq!(
        first_recording_candidate("{\"count\":0,\"recordings\":[]}").unwrap(),
        None
    );
    assert_eq!(
        first_recording_candidate("{\"count\":1}"),
        Err(LbError::Transport)
    );
}

#[test]
fn test_audio_id_shortcut() {
    match audio_id_shortcut(AudioIDData::Mbid("m".to_string())) {
        Ok(id) => assert_eq!(id, "m"),
        Err(_) => panic!("expected the identifier"),
    }
    let tags = AudioFileData {
        artist: "A".to_string(),
        title: "T".to_string(),
        album: None,
    };
    match audio_id_shortcut(AudioIDData::AudioFileData(tags)) {
        Ok(_) => panic!("expected the tags back"),
        Err(d) => assert_eq!(d.artist, "A"),
    }
}

#[test]
fn test_build_track_query_uses_resolved_id() {
    let tags = AudioFileData {
        artist: "Ed Sheeran & Beyonce".to_string(),
        title: "Perfect Duet".to_string(),
        album: Some("Divide".to_string()),
    };
    let resolved = ArtistData {
        artist_tag: "Ed Sheeran".to_string(),
        mbid: Some("b8a7c51f-362c-4dcb-a259-bc6e0095f0a6".to_string()),
    };
    let q = build_track_query(&tags, &resolved);
    assert_eq!(q.artist_id.as_deref(), Some("b8a7c51f-362c-4dcb-a259-bc6e0095f0a6"));
    assert!(q.artist_name.is_none());
    assert_eq!(q.title, "Perfect Duet");
    assert_eq!(q.album.as_deref(), Some("Divide"));

    let unresolved = ArtistData {
        artist_tag: "Ed Sheeran & Beyonce".to_string(),
        mbid: None,
    };
    let q = build_track_query(&tags, &unresolved);
    assert!(q.artist_id.is_none());
    // the conjunction-joined artist text passes through unsplit
    assert_eq!(q.artist_name.as_deref(), Some("Ed Sheeran & Beyonce"));
}

#[test]
fn test_album_option_drops_empty() {
    assert!(album_option(String::new()).is_none());
    assert_eq!(album_option("Divide".to_string()), Some("Divide".to_string()));
}
