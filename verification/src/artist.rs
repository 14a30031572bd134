use vstd::prelude::*;

verus! {

/// The resolution of one free-text artist name: the canonical name to
/// search by, and the catalog identifier when one was found.
#[derive(Debug)]
pub struct ArtistData {
    pub artist_tag: String,
    pub mbid: Option<String>,
}

/// The plain shape of a resolution.
pub open spec fn ad_view(d: ArtistData) -> (Seq<char>, Option<Seq<char>>) {
    (
        d.artist_tag@,
        match d.mbid {
            Some(s) => Some(s@),
            None => None,
        },
    )
}

impl ArtistData {
    /// A copy with the same canonical name and identifier.
    pub fn duplicate(&self) -> (r: ArtistData)
        ensures
            ad_view(r) == ad_view(*self),
    {
        ArtistData {
            artist_tag: self.artist_tag.clone(),
            mbid: match &self.mbid {
                Some(s) => Some(s.clone()),
                None => None,
            },
        }
    }
}

/// The memoized artist resolutions of one run, keyed by the exact queried
/// name. An entry, once present, is never overwritten or evicted.
pub struct ArtistCache {
    entries: Vec<(String, ArtistData)>,
}

/// The mapping that a list of entries denotes, later entries winning; with
/// unique keys, the one entry per key.
pub open spec fn map_of(entries: Seq<(String, ArtistData)>) -> Map<
    Seq<char>,
    (Seq<char>, Option<Seq<char>>),
>
    decreases entries.len(),
{
    if entries.len() == 0 {
        Map::empty()
    } else {
        map_of(entries.drop_last()).insert(entries.last().0@, ad_view(entries.last().1))
    }
}

/// What recording a resolution does to the mapping: nothing at all for a
/// name already present, one new entry otherwise.
pub open spec fn spec_record(
    m: Map<Seq<char>, (Seq<char>, Option<Seq<char>>)>,
    k: Seq<char>,
    v: (Seq<char>, Option<Seq<char>>),
) -> Map<Seq<char>, (Seq<char>, Option<Seq<char>>)> {
    if m.contains_key(k) {
        m
    } else {
        m.insert(k, v)
    }
}

proof fn lemma_map_of_index(entries: Seq<(String, ArtistData)>, i: int)
    requires
        0 <= i < entries.len(),
        forall|j: int| i < j < entries.len() ==> (#[trigger] entries[j].0)@ != entries[i].0@,
    ensures
        map_of(entries).contains_key(entries[i].0@),
        map_of(entries)[entries[i].0@] == ad_view(entries[i].1),
    decreases entries.len(),
{
    if i < entries.len() - 1 {
        assert(entries.drop_last()[i] == entries[i]);
        lemma_map_of_index(entries.drop_last(), i);
    }
}

proof fn lemma_map_of_absent(entries: Seq<(String, ArtistData)>, k: Seq<char>)
    requires
        forall|i: int| 0 <= i < entries.len() ==> (#[trigger] entries[i].0)@ != k,
    ensures
        !map_of(entries).contains_key(k),
    decreases entries.len(),
{
    if entries.len() > 0 {
        lemma_map_of_absent(entries.drop_last(), k);
    }
}

impl ArtistCache {
    /// The mapping the cache holds.
    pub closed spec fn model(&self) -> Map<Seq<char>, (Seq<char>, Option<Seq<char>>)> {
        map_of(self.entries@)
    }

    /// Each name has at most one entry.
    pub closed spec fn wf(&self) -> bool {
        forall|i: int, j: int|
            0 <= i < j < self.entries@.len() ==> (#[trigger] self.entries@[i].0)@ != (
            #[trigger] self.entries@[j].0)@
    }

    /// An empty cache; the cache lives for the run and is never persisted.
    pub fn new() -> (r: ArtistCache)
        ensures
            r.wf(),
            r.model() == Map::<Seq<char>, (Seq<char>, Option<Seq<char>>)>::empty(),
    {
        ArtistCache { entries: Vec::new() }
    }

    /// The cached resolution of a name, exactly when the run has already
    /// resolved it.
    pub fn lookup(&self, name: &String) -> (r: Option<&ArtistData>)
        requires
            self.wf(),
        ensures
            r matches Some(d) ==> self.model().contains_key(name@) && ad_view(*d)
                == self.model().index(name@),
            r is None ==> !self.model().contains_key(name@),
    {
        let mut i: usize = 0;
        while i < self.entries.len()
            invariant
                self.wf(),
                i <= self.entries@.len(),
                forall|j: int| 0 <= j < i ==> (#[trigger] self.entries@[j].0)@ != name@,
            decreases self.entries@.len() - i,
        {
            if self.entries[i].0 == *name {
                proof {
                    lemma_map_of_index(self.entries@, i as int);
                }
                return Some(&self.entries[i].1);
            }
            i += 1;
        }
        proof {
            lemma_map_of_absent(self.entries@, name@);
        }
        None
    }

    /// Stores a resolution under its queried name. A name already present
    /// keeps its first resolution: the mapping is idempotent and never
    /// overwritten within a run.
    pub fn record(&mut self, name: &String, d: ArtistData)
        requires
            old(self).wf(),
        ensures
            final(self).wf(),
            final(self).model() == spec_record(old(self).model(), name@, ad_view(d)),
            final(self).model().contains_key(name@),
    {
        match self.lookup(name) {
            Some(_) => {
            },
            None => {
                proof {
                    assert forall|i: int| 0 <= i < self.entries@.len() implies (
                    #[trigger] self.entries@[i].0)@ != name@ by {
                        if self.entries@[i].0@ == name@ {
                            lemma_map_of_index(self.entries@, i as int);
                        }
                    };
                }
                let ghost before = self.entries@;
                self.entries.push((name.clone(), d));
                proof {
                    assert(self.entries@.drop_last() =~= before);
                }
            },
        }
    }
}

/// The first step of a resolution: a cached name resolves at once, with no
/// search issued; an uncached name needs the searches.
pub enum CacheProbe {
    Cached(ArtistData),
    NeedsSearch,
}

impl ArtistCache {
    /// Looks the name up without touching the network: the cached
    /// resolution when the run has one, the instruction to search
    /// otherwise.
    pub fn probe(&self, name: &String) -> (r: CacheProbe)
        requires
            self.wf(),
        ensures
            self.model().contains_key(name@) <==> r is Cached,
            r matches CacheProbe::Cached(d) ==> ad_view(d) == self.model()[name@],
    {
        match self.lookup(name) {
            Some(d) => CacheProbe::Cached(d.duplicate()),
            None => CacheProbe::NeedsSearch,
        }
    }
}

/// What the name search decided: the first returned candidate,
/// deterministically, or nothing when the search came back empty, in which
/// case the alias search follows.
pub fn after_primary_search(first: Option<(String, String)>) -> (r: Option<ArtistData>)
    ensures
        first matches Some(c) ==> (r matches Some(d) && d.artist_tag@ == c.0@ && (
        d.mbid matches Some(u) && u@ == c.1@)),
        first is None ==> r is None,
{
    match first {
        Some((n, id)) => Some(ArtistData { artist_tag: n, mbid: Some(id) }),
        None => None,
    }
}

/// What the alias search decided: the first returned candidate, or the
/// graceful degradation that keeps the queried name with no identifier, so
/// that the caller falls back to a raw-name search.
pub fn after_alias_search(name: &String, first: Option<(String, String)>) -> (r: ArtistData)
    ensures
        first matches Some(c) ==> r.artist_tag@ == c.0@ && (r.mbid matches Some(u) && u@ == c.1@),
        first is None ==> r.artist_tag@ == name@ && r.mbid is None,
{
    match first {
        Some((n, id)) => ArtistData { artist_tag: n, mbid: Some(id) },
        None => ArtistData { artist_tag: name.clone(), mbid: None },
    }
}

/// The memoization law: once a name is present, recording anything later
/// leaves its entry untouched, so every later lookup of that name returns
/// the first resolution and issues no further search.
pub proof fn lemma_memo_stable(
    m: Map<Seq<char>, (Seq<char>, Option<Seq<char>>)>,
    n: Seq<char>,
    n2: Seq<char>,
    v2: (Seq<char>, Option<Seq<char>>),
)
    requires
        m.contains_key(n),
    ensures
        spec_record(m, n2, v2).contains_key(n),
        spec_record(m, n2, v2)[n] == m[n],
{
}

} // verus!
