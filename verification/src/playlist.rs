use vstd::prelude::*;
use vstd::string::StringExecFns;

use crate::error::LbError;
use crate::ids::{canonical_uuid, uuid_canon_of};
use crate::json::{
    as_arr, as_str, as_u64, jlookup, json_parse, json_parse_spec, jview, jview_item, jviews,
    obj_get, push_quoted, quoted, Json, JsonSpec,
};
use crate::numbers::{all_digits, dec_chars, dec_val, u64_to_dec};
use crate::text::{
    after_last_slash, chars_to_string, push_str_chars, str_to_chars, str_views, tail_after_slash,
};
use crate::urls::{url_with_params, url_with_params_of};

verus! {

broadcast use vstd::seq_lib::group_seq_lib_default, vstd::seq::group_seq_axioms;

/// The reply to a playlist creation: the catalog identifier of the new
/// playlist.
#[derive(Debug, PartialEq, Eq)]
pub struct PlaylistSubmissionResponse {
    pub playlist_mbid: String,
}

/// One entry of the account's playlist listing, fetched to detect title
/// collisions: the title and the playlist's catalog identifier.
#[derive(Debug, PartialEq, Eq)]
pub struct SimpleExistingPlaylistResponse {
    pub title: String,
    pub identifier: String,
}

/// The detail of one existing playlist: its catalog identifier and how many
/// tracks it currently holds.
#[derive(Debug, PartialEq, Eq)]
pub struct FullExistingPlaylistResponse {
    pub identifier: String,
    pub number_of_tracks: usize,
}

/// The title and canonical identifier of one entry of the listing: the
/// object under `playlist` must carry a string `title` and a string
/// `identifier` whose last path segment is a valid identifier.
pub open spec fn simple_entry_of(v: JsonSpec) -> Option<(Seq<char>, Seq<char>)> {
    match jlookup(v, "playlist"@) {
        Some(p) => match (jlookup(p, "title"@), jlookup(p, "identifier"@)) {
            (Some(JsonSpec::Str(t)), Some(JsonSpec::Str(idu))) => match uuid_canon_of(
                after_last_slash(idu),
            ) {
                Some(u) => Some((t, u)),
                None => None,
            },
            _ => None,
        },
        None => None,
    }
}

/// All entries of the listing array, in order; any bad entry spoils the
/// whole listing.
pub open spec fn simple_entries_of(items: Seq<JsonSpec>) -> Option<Seq<(Seq<char>, Seq<char>)>>
    decreases items.len(),
{
    if items.len() == 0 {
        Some(Seq::empty())
    } else {
        match (simple_entries_of(items.drop_last()), simple_entry_of(items.last())) {
            (Some(rest), Some(p)) => Some(rest.push(p)),
            _ => None,
        }
    }
}

/// What the listing response text denotes: the (title, identifier) pairs of
/// its `playlists` array; a response without such an array denotes the
/// empty listing.
pub open spec fn spec_simple_playlists(t: Seq<char>) -> Option<Seq<(Seq<char>, Seq<char>)>> {
    match json_parse_spec(t) {
        None => None,
        Some(v) => match jlookup(v, "playlists"@) {
            Some(JsonSpec::Arr(items)) => simple_entries_of(items),
            _ => Some(Seq::empty()),
        },
    }
}

/// The views of the listing entries.
pub open spec fn simple_views(ps: Seq<SimpleExistingPlaylistResponse>) -> Seq<
    (Seq<char>, Seq<char>),
> {
    ps.map_values(|p: SimpleExistingPlaylistResponse| (p.title@, p.identifier@))
}

proof fn lemma_simple_entries_bad(items: Seq<JsonSpec>, i: int)
    requires
        0 <= i < items.len(),
        simple_entry_of(items[i]) is None,
    ensures
        simple_entries_of(items) is None,
    decreases items.len(),
{
    if i == items.len() - 1 {
    } else {
        lemma_simple_entries_bad(items.drop_last(), i);
    }
}

fn simple_entry_from(
    item: &Json,
    kp: &Vec<char>,
    kt: &Vec<char>,
    ki: &Vec<char>,
) -> (r: Option<SimpleExistingPlaylistResponse>)
    requires
        kp@ == "playlist"@,
        kt@ == "title"@,
        ki@ == "identifier"@,
    ensures
        r matches Some(p) ==> simple_entry_of(jview(*item)) == Some((p.title@, p.identifier@)),
        r is None ==> simple_entry_of(jview(*item)) is None,
{
    let pl = match obj_get(item, kp) {
        Some(p) => p,
        None => {
            return None;
        },
    };
    let tj = match obj_get(pl, kt) {
        Some(t) => t,
        None => {
            return None;
        },
    };
    let tv = match as_str(tj) {
        Some(t) => t,
        None => {
            return None;
        },
    };
    let ij = match obj_get(pl, ki) {
        Some(x) => x,
        None => {
            return None;
        },
    };
    let iv = match as_str(ij) {
        Some(x) => x,
        None => {
            return None;
        },
    };
    let tail = tail_after_slash(iv);
    let tail_s = chars_to_string(&tail);
    match canonical_uuid(tail_s.as_str()) {
        Some(u) => Some(
            SimpleExistingPlaylistResponse { title: chars_to_string(tv), identifier: u },
        ),
        None => None,
    }
}

impl SimpleExistingPlaylistResponse {
    /// Reads the account's playlist listing: exactly the (title, identifier)
    /// pairs that the text denotes, or a transport error when the text is
    /// malformed.
    pub fn from_json(json: &str) -> (r: Result<Vec<SimpleExistingPlaylistResponse>, LbError>)
        ensures
            r matches Ok(ps) ==> spec_simple_playlists(json@) == Some(simple_views(ps@)),
            r matches Err(e) ==> spec_simple_playlists(json@) is None && e == LbError::Transport,
    {
        let chars = str_to_chars(json);
        let doc = match json_parse(&chars) {
            Some(d) => d,
            None => {
                return Err(LbError::Transport);
            },
        };
        let key = str_to_chars("playlists");
        let empty_ok: Vec<SimpleExistingPlaylistResponse> = Vec::new();
        proof {
            assert(simple_views(empty_ok@) =~= Seq::<(Seq<char>, Seq<char>)>::empty());
        }
        let arrj = match obj_get(&doc, &key) {
            Some(a) => a,
            None => {
                return Ok(empty_ok);
            },
        };
        let items = match as_arr(arrj) {
            Some(items) => items,
            None => {
                return Ok(empty_ok);
            },
        };
        let ghost av = jviews(*items);
        let kp = str_to_chars("playlist");
        let kt = str_to_chars("title");
        let ki = str_to_chars("identifier");
        let mut out: Vec<SimpleExistingPlaylistResponse> = Vec::new();
        let mut i: usize = 0;
        proof {
            assert(av.take(0) =~= Seq::<JsonSpec>::empty());
            assert(simple_views(out@) =~= Seq::<(Seq<char>, Seq<char>)>::empty());
        }
        while i < items.len()
            invariant
                i <= items@.len(),
                av == jviews(*items),
                av.len() == items@.len(),
                kp@ == "playlist"@,
                kt@ == "title"@,
                ki@ == "identifier"@,
                spec_simple_playlists(json@) == simple_entries_of(av),
                simple_entries_of(av.take(i as int)) == Some(simple_views(out@)),
            decreases items@.len() - i,
        {
            proof {
                assert(av[i as int] == jview_item(*items, i as int));
                assert(jview_item(*items, i as int) == jview(items@[i as int]));
            }
            match simple_entry_from(&items[i], &kp, &kt, &ki) {
                None => {
                    proof {
                        lemma_simple_entries_bad(av, i as int);
                    }
                    return Err(LbError::Transport);
                },
                Some(p) => {
                    let ghost prev = simple_views(out@);
                    let ghost pv = (p.title@, p.identifier@);
                    out.push(p);
                    proof {
                        assert(av.take(i + 1).drop_last() =~= av.take(i as int));
                        assert(av.take(i + 1).last() == av[i as int]);
                        assert(simple_views(out@) =~= prev.push(pv));
                    }
                },
            }
            i += 1;
        }
        proof {
            assert(av.take(items@.len() as int) =~= av);
        }
        Ok(out)
    }
}

/// What the playlist detail text denotes: the canonical identifier and the
/// length of the `track` array.
pub open spec fn spec_full_playlist(t: Seq<char>) -> Option<(Seq<char>, int)> {
    match json_parse_spec(t) {
        None => None,
        Some(v) => match jlookup(v, "playlist"@) {
            Some(p) => match (jlookup(p, "identifier"@), jlookup(p, "track"@)) {
                (Some(JsonSpec::Str(idu)), Some(JsonSpec::Arr(items))) => match uuid_canon_of(
                    after_last_slash(idu),
                ) {
                    Some(u) => Some((u, items.len() as int)),
                    None => None,
                },
                _ => None,
            },
            None => None,
        },
    }
}

impl FullExistingPlaylistResponse {
    /// Reads one playlist's detail: its canonical identifier and current
    /// track count, or a transport error when the text is malformed.
    pub fn from_json(json: &str) -> (r: Result<FullExistingPlaylistResponse, LbError>)
        ensures
            r matches Ok(p) ==> spec_full_playlist(json@) == Some(
                (p.identifier@, p.number_of_tracks as int),
            ),
            r matches Err(e) ==> spec_full_playlist(json@) is None && e == LbError::Transport,
    {
        let chars = str_to_chars(json);
        let doc = match json_parse(&chars) {
            Some(d) => d,
            None => {
                return Err(LbError::Transport);
            },
        };
        let kp = str_to_chars("playlist");
        let pl = match obj_get(&doc, &kp) {
            Some(p) => p,
            None => {
                return Err(LbError::Transport);
            },
        };
        let ki = str_to_chars("identifier");
        let ij = match obj_get(pl, &ki) {
            Some(x) => x,
            None => {
                return Err(LbError::Transport);
            },
        };
        let iv = match as_str(ij) {
            Some(x) => x,
            None => {
                return Err(LbError::Transport);
            },
        };
        let ktr = str_to_chars("track");
        let tj = match obj_get(pl, &ktr) {
            Some(x) => x,
            None => {
                return Err(LbError::Transport);
            },
        };
        let items = match as_arr(tj) {
            Some(x) => x,
            None => {
                return Err(LbError::Transport);
            },
        };
        let tail = tail_after_slash(iv);
        let tail_s = chars_to_string(&tail);
        match canonical_uuid(tail_s.as_str()) {
            Some(u) => Ok(
                FullExistingPlaylistResponse { identifier: u, number_of_tracks: items.len() },
            ),
            None => Err(LbError::Transport),
        }
    }
}

/// What the creation reply denotes: the canonical identifier under
/// `playlist_mbid`.
pub open spec fn spec_submission(t: Seq<char>) -> Option<Seq<char>> {
    match json_parse_spec(t) {
        None => None,
        Some(v) => match jlookup(v, "playlist_mbid"@) {
            Some(JsonSpec::Str(s)) => uuid_canon_of(s),
            _ => None,
        },
    }
}

/// Reads the reply to a playlist creation, or a transport error when the
/// text is malformed.
pub fn parse_submission_response(json: &str) -> (r: Result<PlaylistSubmissionResponse, LbError>)
    ensures
        r matches Ok(p) ==> spec_submission(json@) == Some(p.playlist_mbid@),
        r matches Err(e) ==> spec_submission(json@) is None && e == LbError::Transport,
{
    let chars = str_to_chars(json);
    let doc = match json_parse(&chars) {
        Some(d) => d,
        None => {
            return Err(LbError::Transport);
        },
    };
    let k = str_to_chars("playlist_mbid");
    let sj = match obj_get(&doc, &k) {
        Some(x) => x,
        None => {
            return Err(LbError::Transport);
        },
    };
    let sv = match as_str(sj) {
        Some(x) => x,
        None => {
            return Err(LbError::Transport);
        },
    };
    let s = chars_to_string(sv);
    match canonical_uuid(s.as_str()) {
        Some(u) => Ok(PlaylistSubmissionResponse { playlist_mbid: u }),
        None => Err(LbError::Transport),
    }
}

/// What the token validation reply denotes: its numeric `code` and the
/// `user_name` string.
pub open spec fn spec_validation(t: Seq<char>) -> Option<(nat, Seq<char>)> {
    match json_parse_spec(t) {
        None => None,
        Some(v) => match (jlookup(v, "code"@), jlookup(v, "user_name"@)) {
            (Some(JsonSpec::Num(lex)), Some(JsonSpec::Str(u))) => if lex.len() > 0 && all_digits(
                lex,
            ) && dec_val(lex) <= u64::MAX {
                Some((dec_val(lex), u))
            } else {
                None
            },
            _ => None,
        },
    }
}

/// Resolves the token to its user: the user name when the reply's code is
/// 200, an authentication error for any other code, a transport error for a
/// malformed reply.
pub fn get_current_user(json: &str) -> (r: Result<String, LbError>)
    ensures
        r matches Ok(u) ==> (spec_validation(json@) matches Some(p) && p.0 == 200 && u@ == p.1),
        r matches Err(e) ==> (spec_validation(json@) is None && e == LbError::Transport) || (
        spec_validation(json@) matches Some(p) && p.0 != 200 && e == LbError::Auth),
{
    let chars = str_to_chars(json);
    let doc = match json_parse(&chars) {
        Some(d) => d,
        None => {
            return Err(LbError::Transport);
        },
    };
    let kc = str_to_chars("code");
    let cj = match obj_get(&doc, &kc) {
        Some(x) => x,
        None => {
            return Err(LbError::Transport);
        },
    };
    let ku = str_to_chars("user_name");
    let uj = match obj_get(&doc, &ku) {
        Some(x) => x,
        None => {
            return Err(LbError::Transport);
        },
    };
    let uv = match as_str(uj) {
        Some(x) => x,
        None => {
            return Err(LbError::Transport);
        },
    };
    let code = match as_u64(cj) {
        Some(n) => n,
        None => {
            return Err(LbError::Transport);
        },
    };
    if code == 200 {
        Ok(chars_to_string(uv))
    } else {
        Err(LbError::Auth)
    }
}

/// The endpoint that validates the token.
pub fn validate_token_url() -> (r: String)
    ensures
        r@ == "https://api.listenbrainz.org/1/validate-token"@,
{
    String::from_str("https://api.listenbrainz.org/1/validate-token")
}

/// The endpoint that creates a playlist.
pub fn create_playlist_url() -> (r: String)
    ensures
        r@ == "https://api.listenbrainz.org/1/playlist/create"@,
{
    String::from_str("https://api.listenbrainz.org/1/playlist/create")
}

/// The endpoint with one playlist's detail.
pub fn playlist_detail_url(id: &String) -> (r: String)
    ensures
        r@ == "https://api.listenbrainz.org/1/playlist/"@ + id@,
{
    String::from_str("https://api.listenbrainz.org/1/playlist/").concat(id.as_str())
}

/// The endpoint that deletes items from a playlist.
pub fn playlist_delete_url(id: &String) -> (r: String)
    ensures
        r@ == "https://api.listenbrainz.org/1/playlist/"@ + id@ + "/item/delete"@,
{
    String::from_str("https://api.listenbrainz.org/1/playlist/").concat(id.as_str()).concat(
        "/item/delete",
    )
}

/// The endpoint that inserts items into a playlist at position zero.
pub fn playlist_add_url(id: &String) -> (r: String)
    ensures
        r@ == "https://api.listenbrainz.org/1/playlist/"@ + id@ + "/item/add/0"@,
{
    String::from_str("https://api.listenbrainz.org/1/playlist/").concat(id.as_str()).concat(
        "/item/add/0",
    )
}

/// The listing endpoint of a user's playlists, asking for them all at once.
/// A URL comes back exactly when the URL library accepts the base and pair.
pub fn playlists_listing_url(user: &String) -> (r: Option<String>)
    ensures
        crate::text::opt_str_view(r) == url_with_params_of(
            "https://api.listenbrainz.org/1/user/"@ + user@ + "/playlists"@,
            seq![("count"@, dec_chars(0xFFFFFFFFnat))],
        ),
{
    let base = String::from_str("https://api.listenbrainz.org/1/user/").concat(
        user.as_str(),
    ).concat("/playlists");
    let mut params: Vec<(String, String)> = Vec::new();
    params.push((String::from_str("count"), chars_to_string(&u64_to_dec(0xFFFFFFFF))));
    proof {
        assert(crate::urls::param_views(params@) =~= seq![("count"@, dec_chars(0xFFFFFFFFnat))]);
    }
    url_with_params(base.as_str(), &params)
}

/// The text of `true` or `false`.
pub open spec fn bool_chars(b: bool) -> Seq<char> {
    if b {
        "true"@
    } else {
        "false"@
    }
}

/// The text of one track entry: its identifier as a recording URI.
pub open spec fn track_entry_text(id: Seq<char>) -> Seq<char> {
    "{\"identifier\":"@ + quoted("https://musicbrainz.org/recording/"@ + id) + "}"@
}

/// The comma-separated track entries, in order.
pub open spec fn track_list_text(ids: Seq<Seq<char>>) -> Seq<char>
    decreases ids.len(),
{
    if ids.len() == 0 {
        Seq::empty()
    } else if ids.len() == 1 {
        track_entry_text(ids[0])
    } else {
        track_list_text(ids.drop_last()) + seq![','] + track_entry_text(ids.last())
    }
}

/// The creation and insertion body: the playlist object with its extension,
/// title and track list, keys in a fixed order.
pub open spec fn playlist_body_text(title: Seq<char>, ids: Seq<Seq<char>>, public: bool) -> Seq<
    char,
> {
    "{\"playlist\":{\"extension\":{\"https://musicbrainz.org/doc/jspf#playlist\":{\"public\":"@
        + bool_chars(public) + "}},\"title\":"@ + quoted(title) + ",\"track\":["@ + track_list_text(
        ids,
    ) + "]}}"@
}

fn push_track_entry(out: &mut Vec<char>, id: &String)
    ensures
        final(out)@ == old(out)@ + track_entry_text(id@),
{
    push_str_chars(out, "{\"identifier\":");
    let mut uri = str_to_chars("https://musicbrainz.org/recording/");
    push_str_chars(&mut uri, id.as_str());
    push_quoted(out, &uri);
    push_str_chars(out, "}");
    proof {
        assert(out@ =~= old(out)@ + track_entry_text(id@));
    }
}

/// The exact body sent to create a playlist or to insert tracks: the given
/// title, the identifiers in order, and the public flag.
pub fn playlist_body(title: &String, ids: &Vec<String>, public: bool) -> (r: String)
    ensures
        r@ == playlist_body_text(title@, str_views(ids@), public),
{
    let mut out = str_to_chars(
        "{\"playlist\":{\"extension\":{\"https://musicbrainz.org/doc/jspf#playlist\":{\"public\":",
    );
    push_str_chars(&mut out, if public {
        "true"
    } else {
        "false"
    });
    push_str_chars(&mut out, "}},\"title\":");
    let tv = str_to_chars(title.as_str());
    push_quoted(&mut out, &tv);
    push_str_chars(&mut out, ",\"track\":[");
    let ghost head = out@;
    let ghost idv = str_views(ids@);
    let mut i: usize = 0;
    proof {
        assert(idv.take(0) =~= Seq::<Seq<char>>::empty());
    }
    while i < ids.len()
        invariant
            i <= ids@.len(),
            idv == str_views(ids@),
            idv.len() == ids@.len(),
            out@ == head + track_list_text(idv.take(i as int)),
        decreases ids@.len() - i,
    {
        if i > 0 {
            out.push(',');
        }
        push_track_entry(&mut out, &ids[i]);
        proof {
            assert(idv.take(i + 1).drop_last() =~= idv.take(i as int));
            assert(idv.take(i + 1).last() == idv[i as int]);
            assert(idv[i as int] == ids@[i as int]@);
            assert(out@ =~= head + track_list_text(idv.take(i + 1)));
        }
        i += 1;
    }
    proof {
        assert(idv.take(ids@.len() as int) =~= idv);
    }
    push_str_chars(&mut out, "]}}");
    let r = chars_to_string(&out);
    proof {
        assert(r@ =~= playlist_body_text(title@, str_views(ids@), public));
    }
    r
}

/// The body of a delete request: the starting index and how many to remove.
pub open spec fn delete_body_text(start: nat, count: nat) -> Seq<char> {
    "{\"count\":"@ + dec_chars(count) + ",\"index\":"@ + dec_chars(start) + "}"@
}

/// The exact body sent to delete items from a playlist.
pub fn delete_items_body(start: usize, count: usize) -> (r: String)
    ensures
        r@ == delete_body_text(start as nat, count as nat),
{
    let mut out = str_to_chars("{\"count\":");
    let c = u64_to_dec(count as u64);
    crate::text::append_copy(&mut out, &c);
    push_str_chars(&mut out, ",\"index\":");
    let s = u64_to_dec(start as u64);
    crate::text::append_copy(&mut out, &s);
    push_str_chars(&mut out, "}");
    let r = chars_to_string(&out);
    proof {
        assert(r@ =~= delete_body_text(start as nat, count as nat));
    }
    r
}

} // verus!
