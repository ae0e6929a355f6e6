//! The dictionary store: the current dataset and its three operations.
//!
//! The store is created from the outcome of an initial fetch, mutated only
//! by whole-dataset replacement in `update`, and read through `get_entry`
//! and `search`. A failed fetch or parse leaves the prior state untouched.

use vstd::prelude::*;

use crate::feed::{counters_result, entries_match_feed, parse_feed, rows_of};
use crate::models::{
    all_langs, has_id, ids_unique, opt_view, ApiError, Counters, Entry, LanguageCode, Topic,
};

verus! {

/// The full dictionary state: source locator, current entries (ids
/// unique), current counters, and the time of the last successful refresh.
#[derive(Debug)]
pub struct Dictionary {
    pub url: String,
    pub entries: Vec<Entry>,
    pub counters: Counters,
    pub last_update: i64,
}

/// Relies on chrono::Utc::now / DateTime::timestamp_millis: the current
/// wall-clock time in milliseconds; nothing is assumed of the value.
#[verifier::external_body]
fn now_millis() -> i64 {
    chrono::Utc::now().timestamp_millis()
}

/// The language list a text filter works over: an empty request means
/// every supported language.
pub open spec fn eff_langs(langs: Seq<LanguageCode>) -> Seq<LanguageCode> {
    if langs.len() == 0 {
        all_langs()
    } else {
        langs
    }
}

/// Whether an entry passes all three filters (languages already effective).
pub open spec fn entry_passes(
    e: Entry,
    text: Option<Seq<char>>,
    langs: Seq<LanguageCode>,
    sem_id: Option<u32>,
    topics: Seq<Topic>,
) -> bool {
    &&& (match sem_id {
        Some(s) => e.sem_id == Some(s),
        None => true,
    })
    &&& (topics.len() == 0 || (e.topic matches Some(t) && topics.contains(t)))
    &&& (match text {
        Some(t) => e.spec_matches(t, langs),
        None => true,
    })
}

/// The entries of `s` passing the filters, in order (languages already
/// effective).
pub open spec fn spec_filter(
    s: Seq<Entry>,
    text: Option<Seq<char>>,
    langs: Seq<LanguageCode>,
    sem_id: Option<u32>,
    topics: Seq<Topic>,
) -> Seq<Entry>
    decreases s.len(),
{
    if s.len() == 0 {
        Seq::<Entry>::empty()
    } else {
        let rest = spec_filter(s.drop_last(), text, langs, sem_id, topics);
        if entry_passes(s.last(), text, langs, sem_id, topics) {
            rest.push(s.last())
        } else {
            rest
        }
    }
}

/// What `search` returns: the filter with the language default applied.
pub open spec fn spec_search(
    s: Seq<Entry>,
    text: Option<Seq<char>>,
    langs: Seq<LanguageCode>,
    sem_id: Option<u32>,
    topics: Seq<Topic>,
) -> Seq<Entry> {
    spec_filter(s, text, eff_langs(langs), sem_id, topics)
}

/// Whether a topic is in the requested set.
fn topic_in(topics: &Vec<Topic>, t: Topic) -> (r: bool)
    ensures
        r == topics@.contains(t),
{
    let mut k: usize = 0;
    while k < topics.len()
        invariant
            k <= topics@.len(),
            forall|j: int| 0 <= j < k ==> topics@[j] != t,
        decreases topics@.len() - k,
    {
        if topics[k] == t {
            return true;
        }
        k = k + 1;
    }
    false
}

/// Whether an entry passes all three filters.
fn entry_passes_exec(
    e: &Entry,
    text: &Option<String>,
    langs: &Vec<LanguageCode>,
    sem_id: Option<u32>,
    topics: &Vec<Topic>,
) -> (r: bool)
    ensures
        r == entry_passes(*e, opt_view(*text), langs@, sem_id, topics@),
{
    let sem_ok: bool = match sem_id {
        Some(s) => match e.sem_id {
            Some(b) => s == b,
            None => false,
        },
        None => true,
    };
    let topic_ok: bool = if topics.len() == 0 {
        true
    } else {
        match e.topic {
            Some(t) => topic_in(topics, t),
            None => false,
        }
    };
    let text_ok: bool = match text {
        Some(t) => e.matches(t.as_str(), langs),
        None => true,
    };
    sem_ok && topic_ok && text_ok
}

impl Dictionary {
    /// Entry ids are unique across the current dataset.
    pub open spec fn wf(self) -> bool {
        ids_unique(self.entries@)
    }

    /// Build a store from the outcome of the initial fetch: parse the
    /// text and populate on success; surface the error otherwise.
    pub fn from_feed(url: String, fetch: Result<String, ApiError>) -> (r: Result<
        Dictionary,
        ApiError,
    >)
        ensures
            match r {
                Ok(d) => {
                    &&& d.wf()
                    &&& d.url@ == url@
                    &&& fetch matches Ok(text) && counters_result(rows_of(text@)) == Ok::<
                        Counters,
                        ApiError,
                    >(d.counters) && entries_match_feed(d.entries@, rows_of(text@))
                },
                Err(e) => match fetch {
                    Ok(text) => counters_result(rows_of(text@)) == Err::<Counters, ApiError>(e),
                    Err(fe) => e == fe,
                },
            },
    {
        let text: String = match fetch {
            Ok(t) => t,
            Err(e) => {
                return Err(e);
            },
        };
        match parse_feed(text.as_str()) {
            Ok(p) => Ok(
                Dictionary {
                    url: url,
                    entries: p.0,
                    counters: p.1,
                    last_update: now_millis(),
                },
            ),
            Err(e) => Err(e),
        }
    }

    /// Refresh from the outcome of a new fetch: on full success replace
    /// the whole dataset as one unit; on any failure leave the store
    /// completely unchanged and surface the error.
    pub fn update(&mut self, fetch: Result<String, ApiError>) -> (r: Result<(), ApiError>)
        ensures
            final (self).url == old(self).url,
            r is Err ==> *final (self) == *old(self),
            match fetch {
                Err(fe) => r == Err::<(), ApiError>(fe),
                Ok(text) => match counters_result(rows_of(text@)) {
                    Ok(cs) => r is Ok && final (self).counters == cs && entries_match_feed(
                        final (self).entries@,
                        rows_of(text@),
                    ) && final (self).wf(),
                    Err(pe) => r == Err::<(), ApiError>(pe),
                },
            },
    {
        let text: String = match fetch {
            Ok(t) => t,
            Err(e) => {
                return Err(e);
            },
        };
        match parse_feed(text.as_str()) {
            Ok(p) => {
                self.entries = p.0;
                self.counters = p.1;
                self.last_update = now_millis();
                Ok(())
            },
            Err(e) => Err(e),
        }
    }

    /// A copy of the entry with the given id, or `EntryNotFound`.
    pub fn get_entry(&self, id: u32) -> (r: Result<Entry, ApiError>)
        ensures
            match r {
                Ok(e) => has_id(self.entries@, id) && self.entries@.contains(e) && e.id == id,
                Err(er) => !has_id(self.entries@, id) && er == ApiError::EntryNotFound(id),
            },
    {
        let mut k: usize = 0;
        while k < self.entries.len()
            invariant
                k <= self.entries@.len(),
                forall|j: int| 0 <= j < k ==> (#[trigger] self.entries@[j]).id != id,
            decreases self.entries@.len() - k,
        {
            if self.entries[k].id == id {
                let e = self.entries[k].clone();
                proof {
                    assert(self.entries@[k as int].id == id);
                    assert(self.entries@.contains(e));
                }
                return Ok(e);
            }
            k = k + 1;
        }
        Err(ApiError::EntryNotFound(id))
    }

    /// The entries satisfying all given filters, in dataset order: a
    /// semantic-id filter, a topic-set filter, and a text filter over the
    /// named languages (all languages when none are named).
    pub fn search(
        &self,
        text: Option<String>,
        text_langs: Vec<LanguageCode>,
        sem_id: Option<u32>,
        topics: Vec<Topic>,
    ) -> (r: Result<Vec<Entry>, ApiError>)
        ensures
            r matches Ok(v) && v@ == spec_search(
                self.entries@,
                opt_view(text),
                text_langs@,
                sem_id,
                topics@,
            ),
    {
        let ghost requested = text_langs@;
        let langs: Vec<LanguageCode> = if text_langs.len() == 0 {
            LanguageCode::all()
        } else {
            text_langs
        };
        proof {
            assert(langs@ == eff_langs(requested));
        }
        let mut out: Vec<Entry> = Vec::new();
        let mut i: usize = 0;
        while i < self.entries.len()
            invariant
                i <= self.entries@.len(),
                langs@ == eff_langs(requested),
                out@ == spec_filter(
                    self.entries@.take(i as int),
                    opt_view(text),
                    langs@,
                    sem_id,
                    topics@,
                ),
            decreases self.entries@.len() - i,
        {
            proof {
                assert(self.entries@.take(i as int + 1).drop_last() =~= self.entries@.take(
                    i as int,
                ));
                assert(self.entries@.take(i as int + 1).last() == self.entries@[i as int]);
            }
            if entry_passes_exec(&self.entries[i], &text, &langs, sem_id, &topics) {
                let e = self.entries[i].clone();
                out.push(e);
            }
            i = i + 1;
        }
        proof {
            assert(self.entries@.take(self.entries@.len() as int) =~= self.entries@);
        }
        Ok(out)
    }
}

/// Every entry a filter keeps comes from the set and passes the filters.
pub proof fn lemma_filter_sound(
    s: Seq<Entry>,
    text: Option<Seq<char>>,
    langs: Seq<LanguageCode>,
    sem_id: Option<u32>,
    topics: Seq<Topic>,
)
    ensures
        forall|k: int|
            0 <= k < spec_filter(s, text, langs, sem_id, topics).len() ==> s.contains(
                #[trigger] spec_filter(s, text, langs, sem_id, topics)[k],
            ) && entry_passes(
                spec_filter(s, text, langs, sem_id, topics)[k],
                text,
                langs,
                sem_id,
                topics,
            ),
    decreases s.len(),
{
    if s.len() > 0 {
        lemma_filter_sound(s.drop_last(), text, langs, sem_id, topics);
        let f = spec_filter(s, text, langs, sem_id, topics);
        let rest = spec_filter(s.drop_last(), text, langs, sem_id, topics);
        assert forall|k: int| 0 <= k < f.len() implies s.contains(#[trigger] f[k]) && entry_passes(
            f[k],
            text,
            langs,
            sem_id,
            topics,
        ) by {
            if k < rest.len() {
                assert(f[k] == rest[k]);
                assert(s.drop_last().contains(rest[k]));
                let j = choose|j: int| 0 <= j < s.drop_last().len() && s.drop_last()[j] == rest[k];
                assert(s[j] == rest[k]);
            } else {
                assert(f[k] == s.last());
                assert(s[s.len() - 1] == s.last());
            }
        }
    }
}

/// Every entry of the set that passes the filters is kept by the filter.
pub proof fn lemma_filter_complete(
    s: Seq<Entry>,
    text: Option<Seq<char>>,
    langs: Seq<LanguageCode>,
    sem_id: Option<u32>,
    topics: Seq<Topic>,
    k: int,
)
    requires
        0 <= k < s.len(),
        entry_passes(s[k], text, langs, sem_id, topics),
    ensures
        spec_filter(s, text, langs, sem_id, topics).contains(s[k]),
    decreases s.len(),
{
    let f = spec_filter(s, text, langs, sem_id, topics);
    let rest = spec_filter(s.drop_last(), text, langs, sem_id, topics);
    if k == s.len() - 1 {
        assert(f[f.len() - 1] == s.last());
    } else {
        assert(s.drop_last()[k] == s[k]);
        lemma_filter_complete(s.drop_last(), text, langs, sem_id, topics, k);
        let j = choose|j: int| 0 <= j < rest.len() && rest[j] == s[k];
        assert(f[j] == s[k]);
    }
}

/// A search with no filters returns exactly the full entry set.
pub proof fn lemma_search_no_filters(s: Seq<Entry>, langs: Seq<LanguageCode>)
    ensures
        spec_search(s, None, langs, None, Seq::<Topic>::empty()) == s,
    decreases s.len(),
{
    let el = eff_langs(langs);
    if s.len() == 0 {
        assert(spec_filter(s, None, el, None, Seq::<Topic>::empty()) =~= s);
    } else {
        lemma_search_no_filters(s.drop_last(), langs);
        assert(entry_passes(s.last(), None, el, None, Seq::<Topic>::empty()));
        assert(spec_filter(s, None, el, None, Seq::<Topic>::empty()) =~= s.drop_last().push(
            s.last(),
        ));
        assert(s.drop_last().push(s.last()) =~= s);
    }
}

/// A search with a semantic id returns only entries of that cluster;
/// entries with no semantic id never match.
pub proof fn lemma_search_sem_id(
    s: Seq<Entry>,
    text: Option<Seq<char>>,
    langs: Seq<LanguageCode>,
    sid: u32,
    topics: Seq<Topic>,
)
    ensures
        forall|k: int|
            0 <= k < spec_search(s, text, langs, Some(sid), topics).len() ==> (#[trigger]
            spec_search(s, text, langs, Some(sid), topics)[k]).sem_id == Some(sid),
{
    lemma_filter_sound(s, text, eff_langs(langs), Some(sid), topics);
}

/// A search with a non-empty topic set returns only entries whose topic
/// is present and in that set.
pub proof fn lemma_search_topics(
    s: Seq<Entry>,
    text: Option<Seq<char>>,
    langs: Seq<LanguageCode>,
    sem_id: Option<u32>,
    topics: Seq<Topic>,
)
    requires
        topics.len() > 0,
    ensures
        forall|k: int|
            0 <= k < spec_search(s, text, langs, sem_id, topics).len() ==> ((#[trigger] spec_search(
                s,
                text,
                langs,
                sem_id,
                topics,
            )[k]).topic matches Some(t) && topics.contains(t)),
{
    lemma_filter_sound(s, text, eff_langs(langs), sem_id, topics);
}

} // verus!

