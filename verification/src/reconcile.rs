use vstd::prelude::*;
use vstd::arithmetic::div_mod::lemma_fundamental_div_mod;
use vstd::relations::injective_on;
use vstd::set_lib::{lemma_int_range, lemma_len_subset, lemma_map_size, set_int_range};

use crate::numbers::{dec_chars, dec_digit, u64_to_dec};
use crate::playlist::SimpleExistingPlaylistResponse;
use crate::text::{chars_to_string, str_to_chars};

verus! {

broadcast use vstd::seq_lib::group_seq_lib_default, vstd::seq::group_seq_axioms, Seq::lemma_flatten_push;

/// Identifiers are inserted into a playlist at most this many per request.
pub const CHUNK_SIZE: usize = 100;

/// What to do when a playlist with the desired title already exists.
#[derive(Clone, Copy, Debug, PartialEq, Eq, Structural)]
pub enum DuplicatePolicy {
    /// Create the new playlist beside the old one, same title and all.
    AllowDuplicate,
    /// Replace the contents of the existing playlist.
    Overwrite,
    /// Create the playlist under the first free numbered title.
    Rename,
    /// Refuse to touch the account.
    Abort,
}

/// The decision computed once per run from the policy and the listing.
pub enum ReconciliationDecision {
    /// Create a new playlist under this title.
    CreateNew { title: String },
    /// Replace the track list of the existing playlist with this identifier.
    OverwriteExisting { existing_id: String },
    /// Create a new playlist under this fresh numbered title.
    RenameAndCreate { title: String },
    /// Stop the run before any mutating call.
    Abort,
}

/// Some playlist of the listing carries exactly this title.
pub open spec fn title_taken(ps: Seq<SimpleExistingPlaylistResponse>, t: Seq<char>) -> bool {
    exists|i: int| 0 <= i < ps.len() && ps[i].title@ == t
}

/// The numbered candidate title `base_n` tried by the rename policy.
pub open spec fn numbered_title(base: Seq<char>, n: nat) -> Seq<char> {
    base + seq!['_'] + dec_chars(n)
}

/// Whether any playlist of the listing carries the given title.
pub fn any_title(ps: &Vec<SimpleExistingPlaylistResponse>, t: &String) -> (r: bool)
    ensures
        r == title_taken(ps@, t@),
{
    let mut i: usize = 0;
    while i < ps.len()
        invariant
            i <= ps@.len(),
            forall|j: int| 0 <= j < i ==> ps@[j].title@ != t@,
        decreases ps@.len() - i,
    {
        if ps[i].title == *t {
            return true;
        }
        i += 1;
    }
    false
}

/// The first playlist of the listing whose title matches exactly, as the
/// collision check of the reconciler searches it.
pub fn find_existing(ps: &Vec<SimpleExistingPlaylistResponse>, desired: &String) -> (r: Option<
    usize,
>)
    ensures
        match r {
            Some(i) => i < ps@.len() && ps@[i as int].title@ == desired@ && forall|j: int|
                0 <= j < i ==> ps@[j].title@ != desired@,
            None => !title_taken(ps@, desired@),
        },
{
    let mut i: usize = 0;
    while i < ps.len()
        invariant
            i <= ps@.len(),
            forall|j: int| 0 <= j < i ==> ps@[j].title@ != desired@,
        decreases ps@.len() - i,
    {
        if ps[i].title == *desired {
            return Some(i);
        }
        i += 1;
    }
    None
}

/// A decimal rendering has a digit per division by ten, so a one-digit and
/// a many-digit rendering never collide.
proof fn lemma_dec_chars_len(n: nat)
    ensures
        dec_chars(n).len() >= 1,
        n >= 10 ==> dec_chars(n).len() >= 2,
    decreases n,
{
    if n >= 10 {
        lemma_dec_chars_len(n / 10);
    }
}

/// Equal digit characters come from equal digits.
proof fn lemma_dec_digit_injective(x: int, y: int)
    requires
        0 <= x < 10,
        0 <= y < 10,
        dec_digit(x) == dec_digit(y),
    ensures
        x == y,
{
}

/// Equal decimal renderings come from equal numbers.
proof fn lemma_dec_chars_injective(a: nat, b: nat)
    requires
        dec_chars(a) == dec_chars(b),
    ensures
        a == b,
    decreases a,
{
    lemma_dec_chars_len(a);
    lemma_dec_chars_len(b);
    if a < 10 && b < 10 {
        assert(dec_chars(a)[0] == dec_digit(a as int));
        assert(dec_chars(b)[0] == dec_digit(b as int));
        lemma_dec_digit_injective(a as int, b as int);
    } else if a >= 10 && b >= 10 {
        assert(dec_chars(a).last() == dec_digit((a % 10) as int));
        assert(dec_chars(b).last() == dec_digit((b % 10) as int));
        lemma_dec_digit_injective((a % 10) as int, (b % 10) as int);
        assert(dec_chars(a / 10) =~= dec_chars(a).drop_last());
        assert(dec_chars(b / 10) =~= dec_chars(b).drop_last());
        lemma_dec_chars_injective(a / 10, b / 10);
        lemma_fundamental_div_mod(a as int, 10);
        lemma_fundamental_div_mod(b as int, 10);
    } else if a < 10 {
        assert(dec_chars(a).len() == 1);
        assert(false);
    } else {
        assert(dec_chars(b).len() == 1);
        assert(false);
    }
}

proof fn lemma_numbered_title_injective(base: Seq<char>, m1: nat, m2: nat)
    requires
        numbered_title(base, m1) == numbered_title(base, m2),
    ensures
        m1 == m2,
{
    let k = base.len() + 1;
    assert(numbered_title(base, m1).skip(k as int) =~= dec_chars(m1));
    assert(numbered_title(base, m2).skip(k as int) =~= dec_chars(m2));
    lemma_dec_chars_injective(m1, m2);
}

/// If every numbered candidate up to `k` is taken, the listing holds at
/// least `k` playlists: candidates are pairwise distinct, so each claims its
/// own listing entry.
proof fn lemma_taken_candidates_bounded(
    ps: Seq<SimpleExistingPlaylistResponse>,
    base: Seq<char>,
    k: nat,
)
    requires
        forall|m: nat| 1 <= m <= k ==> title_taken(ps, #[trigger] numbered_title(base, m)),
    ensures
        k <= ps.len(),
{
    let f = |m: int|
        choose|i: int| 0 <= i < ps.len() && ps[i].title@ == numbered_title(base, m as nat);
    let a = set_int_range(1, k as int + 1);
    lemma_int_range(1, k as int + 1);
    assert forall|m: int| a.contains(m) implies 0 <= #[trigger] f(m) < ps.len() && ps[f(
        m,
    )].title@ == numbered_title(base, m as nat) by {
        assert(title_taken(ps, numbered_title(base, m as nat)));
    };
    assert(injective_on(f, a)) by {
        assert forall|m1: int, m2: int|
            a.contains(m1) && a.contains(m2) && #[trigger] f(m1) == #[trigger] f(
                m2,
            ) implies m1 == m2 by {
            assert(ps[f(m1)].title@ == numbered_title(base, m1 as nat));
            assert(ps[f(m2)].title@ == numbered_title(base, m2 as nat));
            lemma_numbered_title_injective(base, m1 as nat, m2 as nat);
        };
    };
    let b = a.map(f);
    lemma_map_size(a, b, f);
    assert(b.subset_of(set_int_range(0, ps.len() as int))) by {
        assert forall|x: int| b.contains(x) implies set_int_range(0, ps.len() as int).contains(
            x,
        ) by {
            let m = choose|m: int| a.contains(m) && f(m) == x;
        };
    };
    lemma_int_range(0, ps.len() as int);
    lemma_len_subset(b, set_int_range(0, ps.len() as int));
}

/// The first free numbered title for the rename policy: starting at suffix 1
/// and testing every candidate against the whole listing, the title returned
/// is `desired_n` for the least `n` whose candidate no existing playlist
/// carries.
pub fn next_free_title(ps: &Vec<SimpleExistingPlaylistResponse>, desired: &String) -> (r: String)
    requires
        ps@.len() < usize::MAX - 1,
    ensures
        exists|n: nat|
            1 <= n && r@ == numbered_title(desired@, n) && !title_taken(
                ps@,
                #[trigger] numbered_title(desired@, n),
            ) && forall|m: nat|
                1 <= m < n ==> title_taken(ps@, #[trigger] numbered_title(desired@, m)),
{
    let bound: usize = ps.len() + 1;
    let mut n: usize = 1;
    while n <= bound
        invariant
            1 <= n <= bound + 1,
            ps@.len() < usize::MAX - 1,
            bound == ps@.len() + 1,
            forall|m: nat| 1 <= m < n ==> title_taken(ps@, #[trigger] numbered_title(desired@, m)),
        decreases bound + 1 - n,
    {
        let mut cand = str_to_chars(desired.as_str());
        cand.push('_');
        let mut digits = u64_to_dec(n as u64);
        cand.append(&mut digits);
        proof {
            assert(cand@ =~= numbered_title(desired@, n as nat));
        }
        let cand_s = chars_to_string(&cand);
        if !any_title(ps, &cand_s) {
            return cand_s;
        }
        n += 1;
    }
    proof {
        lemma_taken_candidates_bounded(ps@, desired@, bound as nat);
        assert(false);
    }
    vstd::pervasive::unreached()
}

/// The single-shot reconciliation decision of the policy against the
/// listing: no collision always creates; on a collision the policy picks
/// between a side-by-side duplicate, overwriting the first exact match,
/// renaming to the first free numbered title, and aborting before any
/// mutating call.
pub fn decide(
    policy: DuplicatePolicy,
    ps: &Vec<SimpleExistingPlaylistResponse>,
    desired: &String,
) -> (r: ReconciliationDecision)
    requires
        ps@.len() < usize::MAX - 1,
    ensures
        !title_taken(ps@, desired@) ==> (r matches ReconciliationDecision::CreateNew { title }
            && title@ == desired@),
        title_taken(ps@, desired@) && policy == DuplicatePolicy::AllowDuplicate ==> (
        r matches ReconciliationDecision::CreateNew { title } && title@ == desired@),
        title_taken(ps@, desired@) && policy == DuplicatePolicy::Overwrite ==> (
        r matches ReconciliationDecision::OverwriteExisting { existing_id } && exists|i: int|
            0 <= i < ps@.len() && ps@[i].title@ == desired@ && existing_id@ == ps@[i].identifier@
                && forall|j: int| 0 <= j < i ==> ps@[j].title@ != desired@),
        title_taken(ps@, desired@) && policy == DuplicatePolicy::Rename ==> (
        r matches ReconciliationDecision::RenameAndCreate { title } && exists|n: nat|
            1 <= n && title@ == numbered_title(desired@, n) && !title_taken(
                ps@,
                #[trigger] numbered_title(desired@, n),
            ) && forall|m: nat|
                1 <= m < n ==> title_taken(ps@, #[trigger] numbered_title(desired@, m))),
        title_taken(ps@, desired@) && policy == DuplicatePolicy::Abort
            ==> r == ReconciliationDecision::Abort,
{
    match find_existing(ps, desired) {
        None => ReconciliationDecision::CreateNew { title: desired.clone() },
        Some(i) => match policy {
            DuplicatePolicy::AllowDuplicate => ReconciliationDecision::CreateNew {
                title: desired.clone(),
            },
            DuplicatePolicy::Overwrite => ReconciliationDecision::OverwriteExisting {
                existing_id: ps[i].identifier.clone(),
            },
            DuplicatePolicy::Rename => ReconciliationDecision::RenameAndCreate {
                title: next_free_title(ps, desired),
            },
            DuplicatePolicy::Abort => ReconciliationDecision::Abort,
        },
    }
}

/// The delete request of the overwrite path: an existing playlist with
/// tracks is cleared by one request starting at index 0 and spanning one
/// more than its track count; a playlist already empty needs none.
pub fn overwrite_delete_span(track_count: usize) -> (r: Option<(usize, usize)>)
    requires
        track_count < usize::MAX,
    ensures
        track_count == 0 ==> r is None,
        track_count > 0 ==> r == Some((0usize, (track_count + 1) as usize)),
{
    if track_count == 0 {
        None
    } else {
        Some((0, track_count + 1))
    }
}

/// The views of a vector of chunks.
pub open spec fn chunk_views(r: Seq<Vec<String>>) -> Seq<Seq<String>> {
    r.map_values(|c: Vec<String>| c@)
}

/// Splits the resolved identifiers into insertion chunks: concatenated back
/// together the chunks give exactly the input, every chunk but the last is
/// full, and no chunk is empty or oversized.
pub fn chunk_ids(ids: &Vec<String>, size: usize) -> (r: Vec<Vec<String>>)
    requires
        size >= 1,
    ensures
        chunk_views(r@).flatten() == ids@,
        forall|k: int| 0 <= k < r@.len() ==> 1 <= (#[trigger] r@[k])@.len() <= size,
        forall|k: int| 0 <= k < r@.len() - 1 ==> (#[trigger] r@[k])@.len() == size,
{
    let mut chunks: Vec<Vec<String>> = Vec::new();
    let mut cur: Vec<String> = Vec::new();
    let mut j: usize = 0;
    while j < ids.len()
        invariant
            j <= ids@.len(),
            size >= 1,
            cur@.len() < size,
            chunk_views(chunks@).flatten() + cur@ =~= ids@.take(j as int),
            forall|k: int| 0 <= k < chunks@.len() ==> (#[trigger] chunks@[k])@.len() == size,
        decreases ids@.len() - j,
    {
        cur.push(ids[j].clone());
        j += 1;
        proof {
            assert(ids@.take(j as int).drop_last() =~= ids@.take(j - 1));
            assert(chunk_views(chunks@).flatten() + cur@ =~= ids@.take(j as int));
        }
        if cur.len() == size {
            let full = cur;
            cur = Vec::new();
            proof {
                assert(chunk_views(chunks@.push(full)) =~= chunk_views(chunks@).push(full@));
            }
            chunks.push(full);
            proof {
                assert(chunk_views(chunks@).flatten() + cur@ =~= ids@.take(j as int));
            }
        }
    }
    proof {
        assert(ids@.take(j as int) =~= ids@);
    }
    if cur.len() > 0 {
        proof {
            assert(chunk_views(chunks@.push(cur)) =~= chunk_views(chunks@).push(cur@));
        }
        chunks.push(cur);
        proof {
            assert(chunk_views(chunks@).flatten() =~= ids@);
        }
    } else {
        proof {
            assert(cur@ =~= Seq::<String>::empty());
            assert(chunk_views(chunks@).flatten() =~= ids@);
        }
    }
    chunks
}

/// Splits the identifiers into the fixed-size insertion chunks used by the
/// overwrite path.
pub fn insertion_chunks(ids: &Vec<String>) -> (r: Vec<Vec<String>>)
    ensures
        chunk_views(r@).flatten() == ids@,
        forall|k: int| 0 <= k < r@.len() ==> 1 <= (#[trigger] r@[k])@.len() <= CHUNK_SIZE,
        forall|k: int| 0 <= k < r@.len() - 1 ==> (#[trigger] r@[k])@.len() == CHUNK_SIZE,
{
    chunk_ids(ids, CHUNK_SIZE)
}

/// The remote track list after appending each chunk in order, chunk `i + 1`
/// only after chunk `i`.
pub open spec fn apply_chunk_inserts<T>(remote: Seq<T>, chunks: Seq<Seq<T>>) -> Seq<T>
    decreases chunks.len(),
{
    if chunks.len() == 0 {
        remote
    } else {
        apply_chunk_inserts(remote + chunks.first(), chunks.drop_first())
    }
}

proof fn lemma_apply_chunk_inserts_concat<T>(remote: Seq<T>, chunks: Seq<Seq<T>>)
    ensures
        apply_chunk_inserts(remote, chunks) == remote + chunks.flatten(),
    decreases chunks.len(),
{
    if chunks.len() == 0 {
        assert(remote + chunks.flatten() =~= remote);
    } else {
        lemma_apply_chunk_inserts_concat(remote + chunks.first(), chunks.drop_first());
        assert((remote + chunks.first()) + chunks.drop_first().flatten() =~= remote + (
        chunks.first() + chunks.drop_first().flatten()));
    }
}

/// The overwrite-order law: after the overwrite path clears the playlist and
/// inserts the chunks sequentially, the remote track list equals the newly
/// resolved identifier list, in order, whatever it held before.
pub proof fn lemma_overwrite_final_order<T>(ids: Seq<T>, chunks: Seq<Seq<T>>)
    requires
        chunks.flatten() == ids,
    ensures
        apply_chunk_inserts(Seq::<T>::empty(), chunks) == ids,
{
    lemma_apply_chunk_inserts_concat(Seq::<T>::empty(), chunks);
    assert(Seq::<T>::empty() + ids =~= ids);
}

} // verus!
