use vstd::prelude::*;
use vstd::string::StringExecFns;

use crate::error::LbError;
use crate::ids::{canonical_uuid, uuid_canon_of};
use crate::json::{
    as_arr, as_str, as_u64, jlookup, json_parse, json_parse_spec, jview, jview_item, jviews,
    obj_get, push_quoted, quoted, Json, JsonSpec,
};
use crate::numbers::{all_digits, dec_val};
use crate::text::{chars_to_string, opt_str_view, push_str_chars, str_to_chars, str_views};
use crate::urls::{url_with_params, url_with_params_of};

verus! {

broadcast use vstd::seq_lib::group_seq_lib_default, vstd::seq::group_seq_axioms;

/// The sentiment recorded for a track.
#[derive(Clone, Copy, Debug, PartialEq, Eq, Structural)]
pub enum Feedback {
    Love,
    Hate,
    Neutral,
}

/// The score text of a sentiment, as the service records and filters it.
pub open spec fn spec_score(f: Feedback) -> Seq<char> {
    match f {
        Feedback::Love => "1"@,
        Feedback::Hate => "-1"@,
        Feedback::Neutral => "0"@,
    }
}

pub fn score_str(f: Feedback) -> (r: String)
    ensures
        r@ == spec_score(f),
{
    match f {
        Feedback::Love => String::from_str("1"),
        Feedback::Hate => String::from_str("-1"),
        Feedback::Neutral => String::from_str("0"),
    }
}

/// The body sent to record one track's sentiment.
pub open spec fn feedback_body_text(mbid: Seq<char>, f: Feedback) -> Seq<char> {
    "{\"recording_mbid\":"@ + quoted(mbid) + ",\"score\":"@ + quoted(spec_score(f)) + "}"@
}

pub fn feedback_body(mbid: &String, f: Feedback) -> (r: String)
    ensures
        r@ == feedback_body_text(mbid@, f),
{
    let mut out = str_to_chars("{\"recording_mbid\":");
    let mv = str_to_chars(mbid.as_str());
    push_quoted(&mut out, &mv);
    push_str_chars(&mut out, ",\"score\":");
    let sv = str_to_chars(score_str(f).as_str());
    push_quoted(&mut out, &sv);
    push_str_chars(&mut out, "}");
    let r = chars_to_string(&out);
    proof {
        assert(r@ =~= feedback_body_text(mbid@, f));
    }
    r
}

/// The endpoint that records feedback.
pub fn feedback_send_url() -> (r: String)
    ensures
        r@ == "https://api.listenbrainz.org/1/feedback/recording-feedback"@,
{
    String::from_str("https://api.listenbrainz.org/1/feedback/recording-feedback")
}

/// The base of a user's recorded-feedback listing, which the paginator
/// walks.
pub fn feedback_base_url(user: &String) -> (r: String)
    ensures
        r@ == "https://api.listenbrainz.org/1/feedback/user/"@ + user@ + "/get-feedback"@,
{
    String::from_str("https://api.listenbrainz.org/1/feedback/user/").concat(
        user.as_str(),
    ).concat("/get-feedback")
}

/// One page URL narrowed to the wanted score. A URL comes back exactly when
/// the URL library accepts the base and pair.
pub fn feedback_page_url(page_url: &String, f: Feedback) -> (r: Option<String>)
    ensures
        opt_str_view(r) == url_with_params_of(page_url@, seq![("score"@, spec_score(f))]),
{
    let mut params: Vec<(String, String)> = Vec::new();
    params.push((String::from_str("score"), score_str(f)));
    proof {
        assert(crate::urls::param_views(params@) =~= seq![("score"@, spec_score(f))]);
    }
    url_with_params(page_url.as_str(), &params)
}

/// What one entry of a feedback page denotes: the canonical identifier it
/// carries, nothing when the identifier is absent, null or unparsable (such
/// entries are skipped), and a malformed page when it is any other shape.
pub open spec fn feedback_entry_of(v: JsonSpec) -> Option<Option<Seq<char>>> {
    match jlookup(v, "recording_mbid"@) {
        Some(JsonSpec::Str(s)) => match uuid_canon_of(s) {
            Some(u) => Some(Some(u)),
            None => Some(None),
        },
        Some(JsonSpec::Null) => Some(None),
        Some(_) => None,
        None => Some(None),
    }
}

/// The identifiers of a page's entries, in order, skipped entries left out.
pub open spec fn feedback_mbids_of(items: Seq<JsonSpec>) -> Option<Seq<Seq<char>>>
    decreases items.len(),
{
    if items.len() == 0 {
        Some(Seq::empty())
    } else {
        match (feedback_mbids_of(items.drop_last()), feedback_entry_of(items.last())) {
            (Some(rest), Some(Some(m))) => Some(rest.push(m)),
            (Some(rest), Some(None)) => Some(rest),
            _ => None,
        }
    }
}

/// What one feedback page text denotes: its `count` and the identifiers of
/// its `feedback` array.
pub open spec fn spec_feedback_page(t: Seq<char>) -> Option<(nat, Seq<Seq<char>>)> {
    match json_parse_spec(t) {
        None => None,
        Some(v) => match (jlookup(v, "feedback"@), jlookup(v, "count"@)) {
            (Some(JsonSpec::Arr(items)), Some(JsonSpec::Num(lex))) => if lex.len() > 0
                && all_digits(lex) && dec_val(lex) <= u64::MAX {
                match feedback_mbids_of(items) {
                    Some(ms) => Some((dec_val(lex), ms)),
                    None => None,
                }
            } else {
                None
            },
            _ => None,
        },
    }
}

proof fn lemma_feedback_mbids_bad(items: Seq<JsonSpec>, i: int)
    requires
        0 <= i < items.len(),
        feedback_entry_of(items[i]) is None,
    ensures
        feedback_mbids_of(items) is None,
    decreases items.len(),
{
    if i < items.len() - 1 {
        lemma_feedback_mbids_bad(items.drop_last(), i);
    }
}

fn feedback_entry_from(item: &Json, k: &Vec<char>) -> (r: Result<Option<String>, LbError>)
    requires
        k@ == "recording_mbid"@,
    ensures
        r matches Ok(o) ==> feedback_entry_of(jview(*item)) == Some(
            match o {
                Some(m) => Some(m@),
                None => None,
            },
        ),
        r is Err ==> feedback_entry_of(jview(*item)) is None,
{
    match obj_get(item, k) {
        None => Ok(None),
        Some(mj) => match mj {
            Json::Null => Ok(None),
            Json::Str(sv) => {
                let s = chars_to_string(sv);
                match canonical_uuid(s.as_str()) {
                    Some(u) => Ok(Some(u)),
                    None => Ok(None),
                }
            },
            _ => Err(LbError::Transport),
        },
    }
}

/// Reads one feedback page: its reported count and the canonical
/// identifiers it lists, or a transport error when the text is malformed.
pub fn parse_feedback_page(json: &str) -> (r: Result<(u64, Vec<String>), LbError>)
    ensures
        r matches Ok(p) ==> spec_feedback_page(json@) == Some((p.0 as nat, str_views(p.1@))),
        r matches Err(e) ==> spec_feedback_page(json@) is None && e == LbError::Transport,
{
    let chars = str_to_chars(json);
    let doc = match json_parse(&chars) {
        Some(d) => d,
        None => {
            return Err(LbError::Transport);
        },
    };
    let kf = str_to_chars("feedback");
    let fj = match obj_get(&doc, &kf) {
        Some(x) => x,
        None => {
            return Err(LbError::Transport);
        },
    };
    let items = match as_arr(fj) {
        Some(x) => x,
        None => {
            return Err(LbError::Transport);
        },
    };
    let kc = str_to_chars("count");
    let cj = match obj_get(&doc, &kc) {
        Some(x) => x,
        None => {
            return Err(LbError::Transport);
        },
    };
    let count = match as_u64(cj) {
        Some(n) => n,
        None => {
            return Err(LbError::Transport);
        },
    };
    let ghost av = jviews(*items);
    let km = str_to_chars("recording_mbid");
    let mut out: Vec<String> = Vec::new();
    let mut i: usize = 0;
    proof {
        assert(av.take(0) =~= Seq::<JsonSpec>::empty());
        assert(str_views(out@) =~= Seq::<Seq<char>>::empty());
    }
    while i < items.len()
        invariant
            i <= items@.len(),
            av == jviews(*items),
            av.len() == items@.len(),
            km@ == "recording_mbid"@,
            spec_feedback_page(json@) == (match feedback_mbids_of(av) {
                Some(ms) => Some((count as nat, ms)),
                None => None::<(nat, Seq<Seq<char>>)>,
            }),
            feedback_mbids_of(av.take(i as int)) == Some(str_views(out@)),
        decreases items@.len() - i,
    {
        proof {
            assert(av[i as int] == jview_item(*items, i as int));
            assert(jview_item(*items, i as int) == jview(items@[i as int]));
        }
        match feedback_entry_from(&items[i], &km) {
            Err(_) => {
                proof {
                    lemma_feedback_mbids_bad(av, i as int);
                }
                return Err(LbError::Transport);
            },
            Ok(o) => {
                let ghost prev = str_views(out@);
                proof {
                    assert(av.take(i + 1).drop_last() =~= av.take(i as int));
                    assert(av.take(i + 1).last() == av[i as int]);
                }
                match o {
                    Some(m) => {
                        let ghost mv = m@;
                        out.push(m);
                        proof {
                            assert(str_views(out@) =~= prev.push(mv));
                        }
                    },
                    None => {
                    },
                }
            },
        }
        i += 1;
    }
    proof {
        assert(av.take(items@.len() as int) =~= av);
    }
    Ok((count, out))
}

/// Whether the run fetches another feedback page: pagination stops exactly
/// when a page reports a count of zero, and nothing of that page is taken.
pub fn feedback_page_continues(count: u64) -> (r: bool)
    ensures
        r <==> count != 0,
{
    count != 0
}

/// No identifier occurs twice.
pub open spec fn no_dup_ids(s: Seq<Seq<char>>) -> bool {
    forall|i: int, j: int| 0 <= i < j < s.len() ==> s[i] != s[j]
}

/// One page folded into the collection: each identifier of the page is
/// appended once, and one already collected is dropped, as a set collapses
/// duplicates.
pub open spec fn spec_merge_unseen(all: Seq<Seq<char>>, page: Seq<Seq<char>>) -> Seq<Seq<char>>
    decreases page.len(),
{
    if page.len() == 0 {
        all
    } else {
        let rest = spec_merge_unseen(all, page.drop_last());
        if rest.contains(page.last()) {
            rest
        } else {
            rest.push(page.last())
        }
    }
}

/// The set law of the collected feedback: merging keeps the collection
/// duplicate-free and its contents are exactly the union of what was
/// collected and what the page lists.
pub proof fn lemma_merge_unseen_set(all: Seq<Seq<char>>, page: Seq<Seq<char>>)
    requires
        no_dup_ids(all),
    ensures
        no_dup_ids(spec_merge_unseen(all, page)),
        forall|x: Seq<char>|
            #[trigger] spec_merge_unseen(all, page).contains(x) <==> (all.contains(x)
                || page.contains(x)),
    decreases page.len(),
{
    if page.len() == 0 {
        assert forall|x: Seq<char>| #[trigger] page.contains(x) implies false by {};
    } else {
        lemma_merge_unseen_set(all, page.drop_last());
        let rest = spec_merge_unseen(all, page.drop_last());
        let out = spec_merge_unseen(all, page);
        assert forall|x: Seq<char>| #[trigger] out.contains(x) implies (all.contains(x)
            || page.contains(x)) by {
            if rest.contains(x) {
                if page.drop_last().contains(x) {
                    let k = choose|k: int|
                        0 <= k < page.drop_last().len() && page.drop_last()[k] == x;
                    assert(page[k] == x);
                }
            } else {
                assert(x == page.last());
                assert(page[page.len() - 1] == x);
            }
        };
        assert forall|x: Seq<char>| (all.contains(x) || page.contains(x)) implies #[trigger] out
            .contains(x) by {
            if page.contains(x) && !all.contains(x) {
                let k = choose|k: int| 0 <= k < page.len() && page[k] == x;
                if k < page.len() - 1 {
                    assert(page.drop_last()[k] == x);
                    assert(rest.contains(x));
                    if !rest.contains(page.last()) {
                        let m = choose|m: int| 0 <= m < rest.len() && rest[m] == x;
                        assert(out[m] == x);
                    }
                } else {
                    assert(x == page.last());
                    if rest.contains(x) {
                    } else {
                        assert(out.last() == x);
                    }
                }
            } else {
                assert(rest.contains(x));
                if !rest.contains(page.last()) {
                    let m = choose|m: int| 0 <= m < rest.len() && rest[m] == x;
                    assert(out[m] == x);
                }
            }
        };
        if !rest.contains(page.last()) {
            assert forall|i: int, j: int| 0 <= i < j < out.len() implies out[i] != out[j] by {
                if j < out.len() - 1 {
                } else {
                    if out[i] == page.last() {
                        assert(rest[i] == page.last());
                        assert(rest.contains(page.last()));
                    }
                }
            };
        }
    }
}

/// Folds one page of identifiers into the run's collection, dropping every
/// identifier already collected: the identifiers form a set, never a
/// multiset.
pub fn merge_unseen(all: &mut Vec<String>, page: &Vec<String>)
    ensures
        str_views(final(all)@) == spec_merge_unseen(str_views(old(all)@), str_views(page@)),
{
    let ghost all0 = str_views(all@);
    let ghost pv = str_views(page@);
    let mut i: usize = 0;
    proof {
        assert(pv.take(0) =~= Seq::<Seq<char>>::empty());
    }
    while i < page.len()
        invariant
            i <= page@.len(),
            pv == str_views(page@),
            pv.len() == page@.len(),
            str_views(all@) == spec_merge_unseen(all0, pv.take(i as int)),
        decreases page@.len() - i,
    {
        let ghost prev = str_views(all@);
        proof {
            assert(pv.take(i + 1).drop_last() =~= pv.take(i as int));
            assert(pv.take(i + 1).last() == pv[i as int]);
            assert(pv[i as int] == page@[i as int]@);
        }
        if !contains_str(all, &page[i]) {
            let ghost mv = page@[i as int]@;
            all.push(page[i].clone());
            proof {
                assert(str_views(all@) =~= prev.push(mv));
            }
        }
        i += 1;
    }
    proof {
        assert(pv.take(page@.len() as int) =~= pv);
    }
}

/// The identifiers that still need feedback: everything already recorded is
/// left out, order kept.
pub open spec fn spec_filter_unrated(ids: Seq<Seq<char>>, given: Seq<Seq<char>>) -> Seq<Seq<char>>
    decreases ids.len(),
{
    if ids.len() == 0 {
        Seq::empty()
    } else {
        let rest = spec_filter_unrated(ids.drop_last(), given);
        if given.contains(ids.last()) {
            rest
        } else {
            rest.push(ids.last())
        }
    }
}

fn contains_str(v: &Vec<String>, s: &String) -> (r: bool)
    ensures
        r == str_views(v@).contains(s@),
{
    let mut i: usize = 0;
    while i < v.len()
        invariant
            i <= v@.len(),
            forall|j: int| 0 <= j < i ==> str_views(v@)[j] != s@,
        decreases v@.len() - i,
    {
        if v[i] == *s {
            proof {
                assert(str_views(v@)[i as int] == s@);
            }
            return true;
        }
        i += 1;
    }
    proof {
        assert(!str_views(v@).contains(s@));
    }
    false
}

/// Keeps exactly the identifiers whose feedback is not yet recorded, in
/// order.
pub fn filter_unrated(ids: &Vec<String>, given: &Vec<String>) -> (r: Vec<String>)
    ensures
        str_views(r@) == spec_filter_unrated(str_views(ids@), str_views(given@)),
{
    let ghost idv = str_views(ids@);
    let mut out: Vec<String> = Vec::new();
    let mut i: usize = 0;
    proof {
        assert(idv.take(0) =~= Seq::<Seq<char>>::empty());
        assert(str_views(out@) =~= Seq::<Seq<char>>::empty());
    }
    while i < ids.len()
        invariant
            i <= ids@.len(),
            idv == str_views(ids@),
            idv.len() == ids@.len(),
            str_views(out@) == spec_filter_unrated(idv.take(i as int), str_views(given@)),
        decreases ids@.len() - i,
    {
        let ghost prev = str_views(out@);
        proof {
            assert(idv.take(i + 1).drop_last() =~= idv.take(i as int));
            assert(idv.take(i + 1).last() == idv[i as int]);
            assert(idv[i as int] == ids@[i as int]@);
        }
        if !contains_str(given, &ids[i]) {
            let ghost mv = ids@[i as int]@;
            out.push(ids[i].clone());
            proof {
                assert(str_views(out@) =~= prev.push(mv));
            }
        }
        i += 1;
    }
    proof {
        assert(idv.take(ids@.len() as int) =~= idv);
    }
    out
}

} // verus!
