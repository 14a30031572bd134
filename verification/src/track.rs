use vstd::prelude::*;
use vstd::string::StrSliceExecFns;

use crate::error::LbError;
use crate::json::{
    as_arr, as_str, is_empty_object, jlookup, json_parse, json_parse_spec, jview, JsonSpec,
    obj_get,
};
use crate::text::{chars_to_string, opt_str_view, push_str_chars, str_to_chars};
use crate::urls::{url_with_params, url_with_params_of};

verus! {

/// The tags of one local audio file, as the tag-reading collaborator hands
/// them in.
#[derive(Debug)]
pub struct AudioFileData {
    pub artist: String,
    pub title: String,
    pub album: Option<String>,
}

/// One item of the batch: either an identifier already known from the tags,
/// or tags that still need resolution.
#[derive(Debug)]
pub enum AudioIDData {
    Mbid(String),
    AudioFileData(AudioFileData),
}

/// The album field of freshly read tags: an empty text means none was set.
pub fn album_option(album: String) -> (r: Option<String>)
    ensures
        album@.len() == 0 ==> r is None,
        album@.len() > 0 ==> (r matches Some(a) && a == album),
{
    if album.as_str().unicode_len() == 0 {
        None
    } else {
        Some(album)
    }
}

/// An item that already carries its identifier skips resolution; tags go on
/// to the lookup.
pub fn audio_id_shortcut(item: AudioIDData) -> (r: Result<String, AudioFileData>)
    ensures
        item matches AudioIDData::Mbid(m) ==> (r matches Ok(x) && x == m),
        item matches AudioIDData::AudioFileData(d) ==> (r matches Err(x) && x == d),
{
    match item {
        AudioIDData::Mbid(m) => Ok(m),
        AudioIDData::AudioFileData(d) => Err(d),
    }
}

/// The combined search query of one track: the artist's canonical
/// identifier when one was resolved, else the raw artist text; always the
/// title; the album when the tags carry one. A multi-artist text joined by
/// conjunctions passes through opaquely, never split into separate
/// resolutions.
#[derive(Debug)]
pub struct TrackSearchQuery {
    pub artist_id: Option<String>,
    pub artist_name: Option<String>,
    pub title: String,
    pub album: Option<String>,
}

pub fn build_track_query(track: &AudioFileData, artist: &crate::artist::ArtistData) -> (q:
    TrackSearchQuery)
    ensures
        artist.mbid matches Some(id) ==> (q.artist_id matches Some(x) && x@ == id@)
            && q.artist_name is None,
        artist.mbid is None ==> q.artist_id is None && (q.artist_name matches Some(n) && n@
            == track.artist@),
        q.title@ == track.title@,
        track.album matches Some(a) ==> (q.album matches Some(b) && b@ == a@),
        track.album is None ==> q.album is None,
{
    TrackSearchQuery {
        artist_id: match &artist.mbid {
            Some(id) => Some(id.clone()),
            None => None,
        },
        artist_name: match &artist.mbid {
            Some(_) => None,
            None => Some(track.artist.clone()),
        },
        title: track.title.clone(),
        album: match &track.album {
            Some(a) => Some(a.clone()),
            None => None,
        },
    }
}

/// The metadata lookup URL for a title and an artist text: the cheaper
/// direct path of the resolution. A URL comes back exactly when the URL
/// library accepts the base and pairs.
pub fn lookup_url(artist: &String, title: &String) -> (r: Option<String>)
    ensures
        opt_str_view(r) == url_with_params_of(
            "https://api.listenbrainz.org/1/metadata/lookup/"@,
            seq![("artist_name"@, artist@), ("recording_name"@, title@)],
        ),
{
    let mut params: Vec<(String, String)> = Vec::new();
    params.push((String::from_str("artist_name"), artist.clone()));
    params.push((String::from_str("recording_name"), title.clone()));
    proof {
        assert(crate::urls::param_views(params@) =~= seq![
            ("artist_name"@, artist@),
            ("recording_name"@, title@),
        ]);
    }
    url_with_params("https://api.listenbrainz.org/1/metadata/lookup/", &params)
}

/// What one lookup reply decided: the identifier it names, or an empty page
/// calling for the artist fallback.
pub enum LookupOutcome {
    Found(String),
    EmptyPage,
}

/// What the lookup reply text denotes: the empty object when the service
/// knows nothing, the `recording_mbid` string otherwise; anything else is
/// malformed.
pub open spec fn spec_lookup(t: Seq<char>) -> Option<Option<Seq<char>>> {
    match json_parse_spec(t) {
        None => None,
        Some(v) => if v matches JsonSpec::Obj(fields) && fields.len() == 0 {
            Some(None)
        } else {
            match jlookup(v, "recording_mbid"@) {
                Some(JsonSpec::Str(s)) => Some(Some(s)),
                _ => None,
            }
        },
    }
}

/// Reads one lookup reply: the identifier it names, the empty page, or a
/// transport error for a malformed reply.
pub fn lookup_result(json: &str) -> (r: Result<LookupOutcome, LbError>)
    ensures
        r matches Ok(o) ==> match o {
            LookupOutcome::Found(id) => spec_lookup(json@) == Some(Some(id@)),
            LookupOutcome::EmptyPage => spec_lookup(json@) == Some(None::<Seq<char>>),
        },
        r matches Err(e) ==> spec_lookup(json@) is None && e == LbError::Transport,
{
    let chars = str_to_chars(json);
    let doc = match json_parse(&chars) {
        Some(d) => d,
        None => {
            return Err(LbError::Transport);
        },
    };
    if is_empty_object(&doc) {
        return Ok(LookupOutcome::EmptyPage);
    }
    let k = str_to_chars("recording_mbid");
    let sj = match obj_get(&doc, &k) {
        Some(x) => x,
        None => {
            return Err(LbError::Transport);
        },
    };
    match as_str(sj) {
        Some(sv) => Ok(LookupOutcome::Found(chars_to_string(sv))),
        None => Err(LbError::Transport),
    }
}

/// After the direct lookup: a found identifier resolves the track; an empty
/// page escalates to the artist-alias fallback.
pub enum TrackStep {
    Resolved(String),
    RetryWithArtist,
}

pub fn after_direct_lookup(o: LookupOutcome) -> (r: TrackStep)
    ensures
        o matches LookupOutcome::Found(id) ==> (r matches TrackStep::Resolved(x) && x == id),
        o is EmptyPage ==> r is RetryWithArtist,
{
    match o {
        LookupOutcome::Found(id) => TrackStep::Resolved(id),
        LookupOutcome::EmptyPage => TrackStep::RetryWithArtist,
    }
}

/// A value as it stands inside a quoted term of the combined search query:
/// quotes and backslashes escaped with a backslash.
pub open spec fn term_escaped(s: Seq<char>) -> Seq<char>
    decreases s.len(),
{
    if s.len() == 0 {
        Seq::empty()
    } else {
        term_escaped(s.drop_last()) + (if s.last() == '"' || s.last() == '\\' {
            seq!['\\', s.last()]
        } else {
            seq![s.last()]
        })
    }
}

/// One field-qualified term of the combined query.
pub open spec fn query_term(field: Seq<char>, value: Seq<char>) -> Seq<char> {
    field + seq![':', '"'] + term_escaped(value) + seq!['"']
}

/// The text of the combined field-qualified search query: by the artist's
/// canonical identifier when one was resolved, else by the raw artist text;
/// always constrained by the title; by the album when present.
pub open spec fn combined_query_text(q: TrackSearchQuery) -> Seq<char> {
    (match q.artist_id {
        Some(id) => query_term("arid"@, id@),
        None => query_term(
            "artist"@,
            match q.artist_name {
                Some(n) => n@,
                None => Seq::empty(),
            },
        ),
    }) + " AND "@ + query_term("recording"@, q.title@) + (match q.album {
        Some(a) => " AND "@ + query_term("release"@, a@),
        None => Seq::empty(),
    })
}

fn push_query_term(out: &mut Vec<char>, field: &str, value: &String)
    ensures
        final(out)@ == old(out)@ + query_term(field@, value@),
{
    push_str_chars(out, field);
    out.push(':');
    out.push('"');
    let vv = str_to_chars(value.as_str());
    let ghost mid = out@;
    let mut i: usize = 0;
    proof {
        assert(term_escaped(vv@.take(0)) =~= Seq::<char>::empty());
        assert(out@ =~= mid + term_escaped(vv@.take(0)));
    }
    while i < vv.len()
        invariant
            i <= vv@.len(),
            vv@ == value@,
            out@ == mid + term_escaped(vv@.take(i as int)),
        decreases vv@.len() - i,
    {
        let c = vv[i];
        if c == '"' || c == '\\' {
            out.push('\\');
            out.push(c);
        } else {
            out.push(c);
        }
        proof {
            assert(vv@.take(i + 1).drop_last() =~= vv@.take(i as int));
            assert(vv@.take(i + 1).last() == vv@[i as int]);
            assert(out@ =~= mid + term_escaped(vv@.take(i + 1)));
        }
        i += 1;
    }
    out.push('"');
    proof {
        assert(vv@.take(vv@.len() as int) =~= vv@);
        assert(out@ =~= old(out)@ + query_term(field@, value@));
    }
}

/// The exact text of the combined search query of a track.
pub fn recording_search_query(q: &TrackSearchQuery) -> (r: String)
    ensures
        r@ == combined_query_text(*q),
{
    let mut out: Vec<char> = Vec::new();
    match &q.artist_id {
        Some(id) => push_query_term(&mut out, "arid", id),
        None => match &q.artist_name {
            Some(n) => push_query_term(&mut out, "artist", n),
            None => {
                let empty = String::new();
                push_query_term(&mut out, "artist", &empty);
            },
        },
    }
    push_str_chars(&mut out, " AND ");
    push_query_term(&mut out, "recording", &q.title);
    match &q.album {
        Some(a) => {
            push_str_chars(&mut out, " AND ");
            push_query_term(&mut out, "release", a);
        },
        None => {
        },
    }
    let r = chars_to_string(&out);
    proof {
        assert(r@ =~= combined_query_text(*q));
    }
    r
}

/// The recording search URL executing the combined query once. A URL comes
/// back exactly when the URL library accepts the base and pairs.
pub fn recording_search_url(q: &TrackSearchQuery) -> (r: Option<String>)
    ensures
        opt_str_view(r) == url_with_params_of(
            "https://musicbrainz.org/ws/2/recording"@,
            seq![("query"@, combined_query_text(*q)), ("fmt"@, "json"@)],
        ),
{
    let text = recording_search_query(q);
    let mut params: Vec<(String, String)> = Vec::new();
    params.push((String::from_str("query"), text));
    params.push((String::from_str("fmt"), String::from_str("json")));
    proof {
        assert(crate::urls::param_views(params@) =~= seq![
            ("query"@, combined_query_text(*q)),
            ("fmt"@, "json"@),
        ]);
    }
    url_with_params("https://musicbrainz.org/ws/2/recording", &params)
}

/// What a recording search reply denotes: the `id` string of the first
/// entry of its `recordings` array, nothing when the array is empty, and a
/// malformed reply otherwise.
pub open spec fn spec_recording_search(t: Seq<char>) -> Option<Option<Seq<char>>> {
    match json_parse_spec(t) {
        None => None,
        Some(v) => match jlookup(v, "recordings"@) {
            Some(JsonSpec::Arr(items)) => if items.len() == 0 {
                Some(None)
            } else {
                match jlookup(items[0], "id"@) {
                    Some(JsonSpec::Str(s)) => Some(Some(s)),
                    _ => None,
                }
            },
            _ => None,
        },
    }
}

/// Reads one recording search reply: the first candidate's identifier,
/// deterministically, nothing when the search came back empty, or a
/// transport error for a malformed reply.
pub fn first_recording_candidate(json: &str) -> (r: Result<Option<String>, LbError>)
    ensures
        r matches Ok(o) ==> spec_recording_search(json@) == Some(opt_str_view(o)),
        r matches Err(e) ==> spec_recording_search(json@) is None && e == LbError::Transport,
{
    let chars = str_to_chars(json);
    let doc = match json_parse(&chars) {
        Some(d) => d,
        None => {
            return Err(LbError::Transport);
        },
    };
    let kr = str_to_chars("recordings");
    let rj = match obj_get(&doc, &kr) {
        Some(x) => x,
        None => {
            return Err(LbError::Transport);
        },
    };
    let items = match as_arr(rj) {
        Some(x) => x,
        None => {
            return Err(LbError::Transport);
        },
    };
    if items.len() == 0 {
        return Ok(None);
    }
    proof {
        assert(crate::json::jviews(*items)[0] == crate::json::jview_item(*items, 0));
        assert(crate::json::jview_item(*items, 0) == jview(items@[0]));
    }
    let ki = str_to_chars("id");
    let ij = match obj_get(&items[0], &ki) {
        Some(x) => x,
        None => {
            return Err(LbError::Transport);
        },
    };
    match as_str(ij) {
        Some(sv) => Ok(Some(chars_to_string(sv))),
        None => Err(LbError::Transport),
    }
}

/// After the combined search: the first candidate resolves the track; zero
/// candidates mean the track cannot be resolved.
pub fn after_combined_search(first: Option<String>) -> (r: Result<String, LbError>)
    ensures
        first matches Some(id) ==> (r matches Ok(x) && x == id),
        first is None ==> (r matches Err(e) && e == LbError::ResolutionNotFound),
{
    match first {
        Some(id) => Ok(id),
        None => Err(LbError::ResolutionNotFound),
    }
}

} // verus!
