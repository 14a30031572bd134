use lbplaylist::artist::{
    after_alias_search, after_primary_search, ArtistCache, ArtistData, CacheProbe,
};

#[test]
fn test_cache_memoizes_first_resolution() {
    let mut cache = ArtistCache::new();
    let name = "Akihito Okano".to_string();
    assert!(matches!(cache.probe(&name), CacheProbe::NeedsSearch));
    cache.record(
        &name,
        ArtistData {
            artist_tag: "Canonical".to_string(),
            mbid: Some("0f51ab24-c89a-438e-b3af-2d974fa0654a".to_string()),
        },
    );
    match cache.probe(&name) {
        CacheProbe::Cached(d) => {
            assert_eq!(d.artist_tag, "Canonical");
            assert_eq!(d.mbid.as_deref(), Some("0f51ab24-c89a-438e-b3af-2d974fa0654a"));
        }
        CacheProbe::NeedsSearch => panic!("expected the cached resolution"),
    }
}

#[test]
fn test_cache_never_overwrites() {
    let mut cache = ArtistCache::new();
    let name = "Ed Sheeran".to_string();
    cache.record(
        &name,
        ArtistData {
            artist_tag: "First".to_string(),
            mbid: None,
        },
    );
    cache.record(
        &name,
        ArtistData {
            artist_tag: "Second".to_string(),
            mbid: Some("b8a7c51f-362c-4dcb-a259-bc6e0095f0a6".to_string()),
        },
    );
    match cache.probe(&name) {
        CacheProbe::Cached(d) => {
            assert_eq!(d.artist_tag, "First");
            assert!(d.mbid.is_none());
        }
        CacheProbe::NeedsSearch => panic!("expected the cached resolution"),
    }
}

#[test]
fn test_cache_entries_are_per_key() {
    let mut cache = ArtistCache::new();
    cache.record(
        &"A".to_string(),
        ArtistData {
            artist_tag: "One".to_string(),
            mbid: None,
        },
    );
    cache.record(
        &"B".to_string(),
        ArtistData {
            artist_tag: "Two".to_string(),
            mbid: None,
        },
    );
    match cache.probe(&"B".to_string()) {
        CacheProbe::Cached(d) => assert_eq!(d.artist_tag, "Two"),
        CacheProbe::NeedsSearch => panic!("expected the cached resolution"),
    }
}

#[test]
fn test_primary_search_takes_first_candidate() {
    let d = after_primary_search(Some((
        "Sasha Alex Sloan".to_string(),
        "9ae71082-ac47-4b9c-a12b-a67fff75784a".to_string(),
    )))
    .unwrap();
    assert_eq!(d.artist_tag, "Sasha Alex Sloan");
    assert_eq!(d.mbid.as_deref(), Some("9ae71082-ac47-4b9c-a12b-a67fff75784a"));
    assert!(after_primary_search(None).is_none());
}

#[test]
fn test_alias_search_degrades_to_raw_name() {
    let d = after_alias_search(&"Unknown Artist".to_string(), None);
    assert_eq!(d.artist_tag, "Unknown Artist");
    assert!(d.mbid.is_none());
}
