//! The crawl core: the whitelist/blacklist filter, the runtime configuration
//! snapshot, and the orchestrator that admits each URL exactly once, bounds
//! in-flight work by the concurrency limit currently in effect, and detects
//! quiescence.

use vstd::prelude::*;

use crate::dedup::DedupSet;
use crate::errors::ConfigError;

verus! {

#[verifier::external_type_specification]
#[verifier::external_body]
pub struct ExRegexSet(regex::RegexSet);

/// The patterns a compiled regex set was built from, in order.
pub uninterp spec fn patterns_of(rs: regex::RegexSet) -> Seq<Seq<char>>;

/// Relies on regex::RegexSet's Clone: a clone carries the same compiled
/// patterns, so it matches exactly as the original does.
pub assume_specification[ <regex::RegexSet as Clone>::clone ](rs: &regex::RegexSet) -> (r:
    regex::RegexSet)
    ensures
        patterns_of(r) == patterns_of(*rs),
;

/// Whether any of `patterns` matches somewhere in `text`, as the regex crate
/// matches. The result depends on the patterns and the text alone.
pub uninterp spec fn set_any_match(patterns: Seq<Seq<char>>, text: Seq<char>) -> bool;

/// Whether the regex crate compiles this pattern list into a set, as
/// RegexSet::new decides it; compilation success is a function of the
/// patterns alone.
pub uninterp spec fn regex_compiles(patterns: Seq<Seq<char>>) -> bool;

/// Relies on regex::RegexSet::new: compiles the given patterns into one
/// any-of matcher; fails exactly when some pattern is not a valid regular
/// expression, and the message then describes the failure.
#[verifier::external_body]
pub(crate) fn regex_set_new(patterns: &Vec<String>) -> (r: Result<regex::RegexSet, String>)
    ensures
        r is Ok <==> regex_compiles(patterns@.map_values(|p: String| p@)),
        r matches Ok(rs) ==> patterns_of(rs) == patterns@.map_values(|p: String| p@),
{
    regex::RegexSet::new(patterns.iter()).map_err(|e| e.to_string())
}

/// Relies on regex::RegexSet::is_match: true exactly when at least one
/// pattern of the set matches the haystack; an empty set matches nothing.
#[verifier::external_body]
fn regex_set_is_match(rs: &regex::RegexSet, text: &str) -> (r: bool)
    ensures
        r == set_any_match(patterns_of(*rs), text@),
        patterns_of(*rs).len() == 0 ==> r == false,
{
    rs.is_match(text)
}

/// The concurrency cap: how many fetches may be in flight at once.
#[derive(Debug, Clone, PartialEq, Eq, Structural)]
pub struct RateLimit {
    pub max_parallel_requests: u64,
}

impl From<u64> for RateLimit {
    fn from(value: u64) -> (r: Self) {
        RateLimit { max_parallel_requests: value }
    }
}

impl vstd::std_specs::convert::FromSpecImpl<u64> for RateLimit {
    open spec fn obeys_from_spec() -> bool {
        true
    }

    open spec fn from_spec(value: u64) -> Self {
        RateLimit { max_parallel_requests: value }
    }
}

/// The URL filter: a candidate passes when some whitelist pattern matches it
/// and no blacklist pattern does; on overlap the blacklist wins.
#[derive(Debug, Clone)]
pub struct Filter {
    pub whitelist_re: regex::RegexSet,
    pub blacklist_re: regex::RegexSet,
}

/// Whether a URL passes a whitelist/blacklist pair: some whitelist pattern
/// matches and no blacklist pattern does.
pub open spec fn passes_filter(
    whitelist: Seq<Seq<char>>,
    blacklist: Seq<Seq<char>>,
    url: Seq<char>,
) -> bool {
    set_any_match(whitelist, url) && !set_any_match(blacklist, url)
}

impl Filter {
    /// The whitelist patterns this filter was compiled from.
    pub open spec fn whitelist(&self) -> Seq<Seq<char>> {
        patterns_of(self.whitelist_re)
    }

    /// The blacklist patterns this filter was compiled from.
    pub open spec fn blacklist(&self) -> Seq<Seq<char>> {
        patterns_of(self.blacklist_re)
    }

    /// Compiles a whitelist/blacklist pair once, so that evaluating a URL is
    /// independent of the number of patterns. Succeeds exactly when both
    /// lists compile; the whitelist is tried first, so its failure is the
    /// error even when both lists are bad.
    pub fn new(whitelist: &Vec<String>, blacklist: &Vec<String>) -> (r: Result<
        Filter,
        ConfigError,
    >)
        ensures
            r is Ok <==> (regex_compiles(whitelist@.map_values(|p: String| p@))
                && regex_compiles(blacklist@.map_values(|p: String| p@))),
            r matches Ok(f) ==> {
                &&& f.whitelist() == whitelist@.map_values(|p: String| p@)
                &&& f.blacklist() == blacklist@.map_values(|p: String| p@)
            },
            r matches Err(e) ==> ((e matches ConfigError::InvalidWhitelist { .. })
                <==> !regex_compiles(whitelist@.map_values(|p: String| p@))),
            r matches Err(e) ==> ((e matches ConfigError::InvalidBlacklist { .. })
                <==> (regex_compiles(whitelist@.map_values(|p: String| p@))
                && !regex_compiles(blacklist@.map_values(|p: String| p@)))),
    {
        let whitelist_re = match regex_set_new(whitelist) {
            Ok(rs) => rs,
            Err(message) => {
                return Err(ConfigError::InvalidWhitelist { message });
            }
        };
        let blacklist_re = match regex_set_new(blacklist) {
            Ok(rs) => rs,
            Err(message) => {
                return Err(ConfigError::InvalidBlacklist { message });
            }
        };
        Ok(Filter { whitelist_re, blacklist_re })
    }

    /// Whether `value` passes the filter; the blacklist takes precedence.
    pub fn is_match(&self, value: &str) -> (r: bool)
        ensures
            r == passes_filter(self.whitelist(), self.blacklist(), value@),
    {
        if regex_set_is_match(&self.blacklist_re, value) || !regex_set_is_match(
            &self.whitelist_re,
            value,
        ) {
            false
        } else {
            true
        }
    }
}

/// One snapshot of the live-updatable runtime state: the concurrency limit
/// and the filter. Replaced as a whole; readers see either the fully-old or
/// the fully-new value, never a mix.
#[derive(Debug, Clone)]
pub struct RuntimeConfig {
    pub rate_limit: RateLimit,
    pub filter: Filter,
}

impl RuntimeConfig {
    pub fn new(limit: RateLimit, whitelist_re: regex::RegexSet, blacklist_re: regex::RegexSet) -> (c:
        Self)
        ensures
            c.rate_limit == limit,
            c.filter.whitelist_re == whitelist_re,
            c.filter.blacklist_re == blacklist_re,
    {
        RuntimeConfig { rate_limit: limit, filter: Filter { whitelist_re, blacklist_re } }
    }
}

/// The first occurrence of each element of `s`, in order of first
/// appearance: what admitting `s` element by element into an initially empty
/// frontier schedules.
pub open spec fn first_occurrences(s: Seq<Seq<char>>) -> Seq<Seq<char>>
    decreases s.len(),
{
    if s.len() == 0 {
        Seq::empty()
    } else {
        let rest = first_occurrences(s.drop_last());
        if rest.contains(s.last()) {
            rest
        } else {
            rest.push(s.last())
        }
    }
}

pub proof fn lemma_first_occurrences(s: Seq<Seq<char>>)
    ensures
        first_occurrences(s).no_duplicates(),
        forall|x: Seq<char>| #[trigger] first_occurrences(s).contains(x) <==> s.contains(x),
    decreases s.len(),
{
    broadcast use vstd::seq_lib::group_seq_properties;

    if s.len() == 0 {
    } else {
        lemma_first_occurrences(s.drop_last());
        let rest = first_occurrences(s.drop_last());
        let full = first_occurrences(s);
        assert(s =~= s.drop_last().push(s.last()));
        if !rest.contains(s.last()) {
            assert forall|i: int, j: int|
                0 <= i < full.len() && 0 <= j < full.len() && i != j implies full[i] != full[j] by {
                if i < rest.len() && j < rest.len() {
                } else if i < rest.len() {
                    assert(full[j] == s.last());
                    if rest[i] == s.last() {
                        assert(rest.contains(s.last()));
                    }
                } else {
                    assert(full[i] == s.last());
                    if rest[j] == s.last() {
                        assert(rest.contains(s.last()));
                    }
                }
            }
        }
    }
}

/// Which of `links` a task admits when the frontier already holds `already`:
/// those that pass the filter and are seen here for the first time, in
/// order of first appearance.
pub open spec fn newly_admitted(
    links: Seq<Seq<char>>,
    whitelist: Seq<Seq<char>>,
    blacklist: Seq<Seq<char>>,
    already: Set<Seq<char>>,
) -> Seq<Seq<char>>
    decreases links.len(),
{
    if links.len() == 0 {
        Seq::empty()
    } else {
        let rest = newly_admitted(links.drop_last(), whitelist, blacklist, already);
        let u = links.last();
        if passes_filter(whitelist, blacklist, u) && !already.contains(u) && !rest.contains(u) {
            rest.push(u)
        } else {
            rest
        }
    }
}

pub proof fn lemma_newly_admitted(
    links: Seq<Seq<char>>,
    whitelist: Seq<Seq<char>>,
    blacklist: Seq<Seq<char>>,
    already: Set<Seq<char>>,
)
    ensures
        newly_admitted(links, whitelist, blacklist, already).no_duplicates(),
        forall|x: Seq<char>| #[trigger] newly_admitted(links, whitelist, blacklist, already).contains(
            x,
        ) ==> links.contains(x) && passes_filter(whitelist, blacklist, x) && !already.contains(x),
        forall|x: Seq<char>|
            links.contains(x) && passes_filter(whitelist, blacklist, x) ==> already.contains(x)
                || #[trigger] newly_admitted(links, whitelist, blacklist, already).contains(x),
    decreases links.len(),
{
    broadcast use vstd::seq_lib::group_seq_properties;

    if links.len() == 0 {
    } else {
        lemma_newly_admitted(links.drop_last(), whitelist, blacklist, already);
        let rest = newly_admitted(links.drop_last(), whitelist, blacklist, already);
        let full = newly_admitted(links, whitelist, blacklist, already);
        let u = links.last();
        assert(links =~= links.drop_last().push(u));
        if passes_filter(whitelist, blacklist, u) && !already.contains(u) && !rest.contains(u) {
            assert forall|i: int, j: int|
                0 <= i < full.len() && 0 <= j < full.len() && i != j implies full[i] != full[j] by {
                if i < rest.len() && j < rest.len() {
                } else if i < rest.len() {
                    if rest[i] == u {
                        assert(rest.contains(u));
                    }
                } else if j < rest.len() {
                    if rest[j] == u {
                        assert(rest.contains(u));
                    }
                }
            }
        }
    }
}

proof fn lemma_to_set_add(a: Seq<Seq<char>>, b: Seq<Seq<char>>)
    ensures
        (a + b).to_set() == a.to_set() + b.to_set(),
{
    broadcast use vstd::seq_lib::group_seq_properties;

    assert((a + b).to_set() =~= a.to_set() + b.to_set());
}

/// The crawl orchestrator's scheduling state: the frontier of every URL ever
/// admitted, the FIFO queue of admitted-but-not-started URLs, and the count
/// of tasks in flight. The driver that owns the I/O calls `start` once,
/// launches a fetch for every URL handed back by `start` or `refill`, and on
/// each completion calls `admit_links` with the page's links and
/// `task_completed`, then `refill` under the limit currently in effect.
pub struct Orchestrator {
    seed_urls: Vec<String>,
    noticed_uris: DedupSet,
    pending: Vec<String>,
    in_flight: usize,
    launched: Ghost<Seq<Seq<char>>>,
    completed: Ghost<int>,
    unpublished: Ghost<Set<Seq<char>>>,
}

impl Orchestrator {
    /// The seed URLs this crawl was created with.
    pub closed spec fn seeds(&self) -> Seq<Seq<char>> {
        self.seed_urls@.map_values(|s: String| s@)
    }

    /// Every URL ever admitted to the crawl.
    pub closed spec fn admitted(&self) -> Set<Seq<char>> {
        self.noticed_uris.urls()
    }

    /// The queue of URLs admitted but not yet handed out, oldest first.
    pub closed spec fn pending_urls(&self) -> Seq<Seq<char>> {
        self.pending@.map_values(|s: String| s@)
    }

    /// Every URL ever handed out for fetching, in order.
    pub closed spec fn launched_urls(&self) -> Seq<Seq<char>> {
        self.launched@
    }

    /// How many handed-out fetches have not completed yet.
    pub closed spec fn in_flight_count(&self) -> int {
        self.in_flight as int
    }

    /// How many handed-out fetches have completed.
    pub closed spec fn completed_count(&self) -> int {
        self.completed@
    }

    /// URLs admitted by a task whose discovery is not yet persisted: they
    /// are withheld from the pending queue until `publish_links` moves them
    /// there, after the durability write.
    pub closed spec fn unpublished_urls(&self) -> Set<Seq<char>> {
        self.unpublished@
    }

    /// The scheduling invariant: no URL is queued or launched twice, a URL
    /// is queued, launched or awaiting publication exactly when it was
    /// admitted, and every launched task is either in flight or completed.
    pub open spec fn wf(&self) -> bool {
        &&& self.pending_urls().no_duplicates()
        &&& self.launched_urls().no_duplicates()
        &&& forall|i: int|
            0 <= i < self.pending_urls().len() ==> !self.launched_urls().contains(
                #[trigger] self.pending_urls()[i],
            )
        &&& forall|i: int|
            0 <= i < self.pending_urls().len() ==> !self.unpublished_urls().contains(
                #[trigger] self.pending_urls()[i],
            )
        &&& forall|i: int|
            0 <= i < self.launched_urls().len() ==> !self.unpublished_urls().contains(
                #[trigger] self.launched_urls()[i],
            )
        &&& self.admitted() == self.pending_urls().to_set() + self.launched_urls().to_set()
            + self.unpublished_urls()
        &&& 0 <= self.completed_count()
        &&& self.in_flight_count() == self.launched_urls().len() - self.completed_count()
    }

    pub fn new(seed_urls: Vec<String>) -> (o: Orchestrator)
        ensures
            o.wf(),
            o.seeds() == seed_urls@.map_values(|s: String| s@),
            o.admitted() == Set::<Seq<char>>::empty(),
            o.pending_urls() == Seq::<Seq<char>>::empty(),
            o.launched_urls() == Seq::<Seq<char>>::empty(),
            o.in_flight_count() == 0,
            o.completed_count() == 0,
            o.unpublished_urls() == Set::<Seq<char>>::empty(),
    {
        let o = Orchestrator {
            seed_urls,
            noticed_uris: DedupSet::new(),
            pending: Vec::new(),
            in_flight: 0,
            launched: Ghost(Seq::empty()),
            completed: Ghost(0int),
            unpublished: Ghost(Set::empty()),
        };
        proof {
            broadcast use vstd::seq_lib::group_seq_properties;

            assert(o.pending_urls() =~= Seq::<Seq<char>>::empty());
            assert(o.admitted() =~= o.pending_urls().to_set() + o.launched_urls().to_set()
                + o.unpublished_urls());
        }
        o
    }

    /// Begins a crawl: admits the seed URLs together with links left
    /// unresolved by a prior run, deduplicated against each other, and splits
    /// them at the concurrency limit. The returned batch is to be fetched
    /// now; the rest waits in the pending queue, in order.
    pub fn start(&mut self, unresolved: Vec<String>, limit: u64) -> (to_launch: Vec<String>)
        requires
            old(self).wf(),
            old(self).admitted() == Set::<Seq<char>>::empty(),
            old(self).pending_urls().len() == 0,
            old(self).launched_urls().len() == 0,
            old(self).completed_count() == 0,
        ensures
            final(self).wf(),
            final(self).seeds() == old(self).seeds(),
            final(self).completed_count() == 0,
            final(self).unpublished_urls() == Set::<Seq<char>>::empty(),
            final(self).admitted() == (old(self).seeds() + unresolved@.map_values(
                |s: String| s@,
            )).to_set(),
            to_launch@.map_values(|s: String| s@) + final(self).pending_urls()
                == first_occurrences(old(self).seeds() + unresolved@.map_values(|s: String| s@)),
            final(self).launched_urls() == to_launch@.map_values(|s: String| s@),
            final(self).in_flight_count() == to_launch@.len(),
            to_launch@.len() == if limit as int <= first_occurrences(
                old(self).seeds() + unresolved@.map_values(|s: String| s@),
            ).len() {
                limit as int
            } else {
                first_occurrences(old(self).seeds() + unresolved@.map_values(|s: String| s@)).len() as int
            },
    {
        broadcast use vstd::seq_lib::group_seq_properties;

        proof {
            // An empty frontier holds nothing awaiting publication either.
            assert forall|x: Seq<char>| !old(self).unpublished_urls().contains(x) by {
                if old(self).unpublished_urls().contains(x) {
                    assert(old(self).admitted().contains(x));
                }
            }
            assert(old(self).unpublished_urls() =~= Set::<Seq<char>>::empty());
        }
        let ghost seed_views = self.seed_urls@.map_values(|s: String| s@);
        let ghost unresolved_views = unresolved@.map_values(|s: String| s@);
        let ghost combined = seed_views + unresolved_views;

        // Gather seeds and unresolved links into one list, seeds first.
        let mut combined_v: Vec<String> = Vec::new();
        let mut i: usize = 0;
        while i < self.seed_urls.len()
            invariant
                i <= self.seed_urls.len(),
                combined_v@.len() == i,
                forall|k: int| 0 <= k < i ==> combined_v@[k] == self.seed_urls@[k],
                self == old(self),
            decreases self.seed_urls.len() - i,
        {
            combined_v.push(self.seed_urls[i].clone());
            i = i + 1;
        }
        let mut j: usize = 0;
        while j < unresolved.len()
            invariant
                j <= unresolved.len(),
                combined_v@.len() == self.seed_urls@.len() + j,
                forall|k: int| 0 <= k < self.seed_urls@.len() ==> combined_v@[k]
                    == self.seed_urls@[k],
                forall|k: int| 0 <= k < j ==> combined_v@[self.seed_urls@.len() + k]
                    == unresolved@[k],
                self == old(self),
            decreases unresolved.len() - j,
        {
            combined_v.push(unresolved[j].clone());
            j = j + 1;
        }
        let ghost combined_views = combined_v@.map_values(|s: String| s@);
        proof {
            assert(combined_views =~= combined);
        }

        // Admit each URL once, in order of first appearance.
        let mut admitted_all: Vec<String> = Vec::new();
        let mut k: usize = 0;
        while k < combined_v.len()
            invariant
                k <= combined_v.len(),
                combined_views == combined_v@.map_values(|s: String| s@),
                self.noticed_uris.urls() == combined_views.take(k as int).to_set(),
                admitted_all@.map_values(|s: String| s@) == first_occurrences(
                    combined_views.take(k as int),
                ),
                self.seed_urls == old(self).seed_urls,
                self.pending == old(self).pending,
                self.in_flight == old(self).in_flight,
                self.launched == old(self).launched,
                self.completed == old(self).completed,
                self.unpublished == old(self).unpublished,
            decreases combined_v.len() - k,
        {
            let ghost prefix = combined_views.take(k as int);
            let ghost cur = combined_views[k as int];
            proof {
                lemma_first_occurrences(prefix);
                assert(combined_views.take(k + 1).drop_last() =~= prefix);
                assert(combined_views.take(k + 1).last() == cur);
            }
            let added = self.noticed_uris.insert_if_absent(combined_v[k].as_str());
            if added {
                admitted_all.push(combined_v[k].clone());
            }
            proof {
                assert(self.noticed_uris.urls() =~= combined_views.take(k + 1).to_set());
                assert(admitted_all@.map_values(|s: String| s@) =~= first_occurrences(
                    combined_views.take(k + 1),
                ));
            }
            k = k + 1;
        }
        proof {
            assert(combined_views.take(combined_views.len() as int) =~= combined_views);
        }

        // Hand out the first batch, up to the limit; queue the rest.
        let total = admitted_all.len();
        let split: usize = if limit <= total as u64 {
            limit as usize
        } else {
            total
        };
        let rest = admitted_all.split_off(split);
        let to_launch = admitted_all;
        self.pending = rest;
        self.in_flight = to_launch.len();
        self.launched = Ghost(to_launch@.map_values(|s: String| s@));
        proof {
            let launched_views = to_launch@.map_values(|s: String| s@);
            let pending_views = self.pending@.map_values(|s: String| s@);
            let firsts = first_occurrences(combined);
            lemma_first_occurrences(combined);
            assert(launched_views + pending_views =~= firsts);
            assert(launched_views =~= firsts.take(split as int));
            assert(pending_views =~= firsts.skip(split as int));
            lemma_to_set_add(launched_views, pending_views);
            assert(self.admitted() =~= combined.to_set());
            assert(firsts.to_set() =~= combined.to_set());
            assert forall|i2: int| 0 <= i2 < pending_views.len() implies !launched_views.contains(
                #[trigger] pending_views[i2],
            ) by {
                if launched_views.contains(pending_views[i2]) {
                    let w = choose|w: int| 0 <= w < launched_views.len() && launched_views[w]
                        == pending_views[i2];
                    assert(firsts[w] == firsts[split + i2]);
                }
            }
            assert forall|a: int, b: int|
                0 <= a < launched_views.len() && 0 <= b < launched_views.len() && a != b implies
                launched_views[a] != launched_views[b] by {
                assert(launched_views[a] == firsts[a]);
                assert(launched_views[b] == firsts[b]);
            }
            assert forall|a: int, b: int|
                0 <= a < pending_views.len() && 0 <= b < pending_views.len() && a != b implies
                pending_views[a] != pending_views[b] by {
                assert(pending_views[a] == firsts[split + a]);
                assert(pending_views[b] == firsts[split + b]);
            }
            assert(self.unpublished_urls() =~= Set::<Seq<char>>::empty());
            assert(self.admitted() =~= pending_views.to_set() + launched_views.to_set()
                + self.unpublished_urls());
        }
        to_launch
    }

    /// The discovery step of one completed fetch: for each link of the page,
    /// in order, drop it if it fails the filter currently in effect or was
    /// already admitted; otherwise admit it and return it in the
    /// newly-admitted batch. The caller persists that batch and then hands
    /// it to `publish_links`, which moves it onto the pending queue; until
    /// then the batch is held back as unpublished. No distinct URL can be
    /// admitted twice, here or by any later call.
    pub fn admit_links(&mut self, links: &Vec<String>, filter: &Filter) -> (admitted: Vec<String>)
        requires
            old(self).wf(),
        ensures
            final(self).wf(),
            final(self).seeds() == old(self).seeds(),
            final(self).launched_urls() == old(self).launched_urls(),
            final(self).in_flight_count() == old(self).in_flight_count(),
            final(self).completed_count() == old(self).completed_count(),
            admitted@.map_values(|s: String| s@) == newly_admitted(
                links@.map_values(|s: String| s@),
                filter.whitelist(),
                filter.blacklist(),
                old(self).admitted(),
            ),
            admitted@.map_values(|s: String| s@).no_duplicates(),
            final(self).admitted() == old(self).admitted() + admitted@.map_values(
                |s: String| s@,
            ).to_set(),
            final(self).pending_urls() == old(self).pending_urls(),
            final(self).unpublished_urls() == old(self).unpublished_urls() + admitted@.map_values(
                |s: String| s@,
            ).to_set(),
            forall|i: int|
                0 <= i < links@.len() && passes_filter(
                    filter.whitelist(),
                    filter.blacklist(),
                    #[trigger] links@[i]@,
                ) ==> final(self).admitted().contains(links@[i]@),
    {
        broadcast use vstd::seq_lib::group_seq_properties;

        let ghost link_views = links@.map_values(|s: String| s@);
        let ghost wl = filter.whitelist();
        let ghost bl = filter.blacklist();
        let ghost already = old(self).admitted();

        let mut admitted: Vec<String> = Vec::new();
        proof {
            assert(admitted@.map_values(|s: String| s@).to_set() =~= Set::<Seq<char>>::empty());
            assert(self.unpublished@ =~= old(self).unpublished@ + admitted@.map_values(
                |s: String| s@,
            ).to_set());
            assert(self.noticed_uris.urls() =~= already + admitted@.map_values(
                |s: String| s@,
            ).to_set());
        }
        let mut i: usize = 0;
        while i < links.len()
            invariant
                i <= links.len(),
                link_views == links@.map_values(|s: String| s@),
                wl == filter.whitelist(),
                bl == filter.blacklist(),
                already == old(self).admitted(),
                old(self).wf(),
                admitted@.map_values(|s: String| s@) == newly_admitted(
                    link_views.take(i as int),
                    wl,
                    bl,
                    already,
                ),
                self.noticed_uris.urls() == already + admitted@.map_values(|s: String| s@).to_set(),
                self.unpublished@ == old(self).unpublished@ + admitted@.map_values(
                    |s: String| s@,
                ).to_set(),
                self.pending == old(self).pending,
                self.seed_urls == old(self).seed_urls,
                self.in_flight == old(self).in_flight,
                self.launched == old(self).launched,
                self.completed == old(self).completed,
            decreases links.len() - i,
        {
            let ghost prefix = link_views.take(i as int);
            let ghost adm_prefix = newly_admitted(prefix, wl, bl, already);
            proof {
                lemma_newly_admitted(prefix, wl, bl, already);
                assert(link_views.take(i + 1).drop_last() =~= prefix);
                assert(link_views.take(i + 1).last() == link_views[i as int]);
            }
            let link = &links[i];
            if filter.is_match(link.as_str()) {
                let added = self.noticed_uris.insert_if_absent(link.as_str());
                if added {
                    admitted.push(link.clone());
                    self.unpublished = Ghost(self.unpublished@.insert(link@));
                }
            }
            proof {
                let adm_new = admitted@.map_values(|s: String| s@);
                assert(adm_new =~= newly_admitted(link_views.take(i + 1), wl, bl, already));
                if adm_new != adm_prefix {
                    assert(adm_new =~= adm_prefix.push(link_views[i as int]));
                    adm_prefix.lemma_push_to_set_commute(link_views[i as int]);
                    assert(adm_new.to_set() =~= adm_prefix.to_set().insert(link_views[i as int]));
                }
                assert(self.noticed_uris.urls() =~= already + adm_new.to_set());
                assert(self.unpublished@ =~= old(self).unpublished@ + adm_new.to_set());
            }
            i = i + 1;
        }
        proof {
            assert(link_views.take(link_views.len() as int) =~= link_views);
            let adm_views = admitted@.map_values(|s: String| s@);
            lemma_newly_admitted(link_views, wl, bl, already);
            let pending_views = self.pending_urls();
            let launched_views = self.launched_urls();
            assert(self.admitted() =~= pending_views.to_set() + launched_views.to_set()
                + self.unpublished_urls());
            assert forall|i2: int|
                0 <= i2 < pending_views.len() implies !self.unpublished_urls().contains(
                #[trigger] pending_views[i2],
            ) by {
                let u = pending_views[i2];
                assert(old(self).pending_urls().to_set().contains(u));
                assert(already.contains(u));
                if adm_views.to_set().contains(u) {
                    assert(adm_views.contains(u));
                }
            }
            assert forall|i2: int|
                0 <= i2 < launched_views.len() implies !self.unpublished_urls().contains(
                #[trigger] launched_views[i2],
            ) by {
                let u = launched_views[i2];
                assert(old(self).launched_urls().to_set().contains(u));
                assert(already.contains(u));
                if adm_views.to_set().contains(u) {
                    assert(adm_views.contains(u));
                }
            }
            assert forall|i2: int|
                0 <= i2 < links@.len() && passes_filter(wl, bl, #[trigger] links@[i2]@) implies
                self.admitted().contains(links@[i2]@) by {
                let u = link_views[i2];
                assert(u == links@[i2]@);
                assert(link_views.contains(u));
                assert(already.contains(u) || adm_views.contains(u));
                if adm_views.contains(u) {
                    assert(adm_views.to_set().contains(u));
                }
                assert((already + adm_views.to_set()).contains(u));
            }
        }
        admitted
    }

    /// Publishes a batch of newly admitted URLs to the pending queue, in
    /// order. A task persists the batch it got from `admit_links` first and
    /// publishes it here after, so a URL reaches the queue only once its
    /// discovery is durable.
    pub fn publish_links(&mut self, batch: &Vec<String>)
        requires
            old(self).wf(),
            batch@.map_values(|s: String| s@).no_duplicates(),
            batch@.map_values(|s: String| s@).to_set().subset_of(old(self).unpublished_urls()),
        ensures
            final(self).wf(),
            final(self).seeds() == old(self).seeds(),
            final(self).admitted() == old(self).admitted(),
            final(self).launched_urls() == old(self).launched_urls(),
            final(self).in_flight_count() == old(self).in_flight_count(),
            final(self).completed_count() == old(self).completed_count(),
            final(self).pending_urls() == old(self).pending_urls() + batch@.map_values(
                |s: String| s@,
            ),
            final(self).unpublished_urls() == old(self).unpublished_urls().difference(
                batch@.map_values(|s: String| s@).to_set(),
            ),
    {
        broadcast use vstd::seq_lib::group_seq_properties;
        broadcast use vstd::set::group_set_axioms;

        let ghost batch_views = batch@.map_values(|s: String| s@);
        let ghost old_pending = old(self).pending_urls();
        proof {
            assert(batch_views.take(0).to_set() =~= Set::<Seq<char>>::empty());
            assert(self.unpublished@ =~= old(self).unpublished@.difference(
                batch_views.take(0).to_set(),
            ));
            assert(self.pending@.map_values(|s: String| s@) =~= old_pending + batch_views.take(0));
        }
        let mut i: usize = 0;
        while i < batch.len()
            invariant
                i <= batch.len(),
                batch_views == batch@.map_values(|s: String| s@),
                batch_views.no_duplicates(),
                batch_views.to_set().subset_of(old(self).unpublished_urls()),
                old(self).wf(),
                old_pending == old(self).pending_urls(),
                self.pending@.map_values(|s: String| s@) == old_pending + batch_views.take(
                    i as int,
                ),
                self.unpublished@ == old(self).unpublished@.difference(
                    batch_views.take(i as int).to_set(),
                ),
                self.noticed_uris == old(self).noticed_uris,
                self.seed_urls == old(self).seed_urls,
                self.in_flight == old(self).in_flight,
                self.launched == old(self).launched,
                self.completed == old(self).completed,
            decreases batch.len() - i,
        {
            proof {
                assert(batch_views.take(i + 1) =~= batch_views.take(i as int).push(
                    batch_views[i as int],
                ));
                batch_views.take(i as int).lemma_push_to_set_commute(batch_views[i as int]);
            }
            let url = batch[i].clone();
            let ghost pre_map = self.pending@.map_values(|s: String| s@);
            proof {
                assert(url == batch@[i as int]);
            }
            self.pending.push(url);
            self.unpublished = Ghost(self.unpublished@.remove(batch@[i as int]@));
            proof {
                assert(batch@[i as int]@ == batch_views[i as int]);
                assert(self.pending@.map_values(|s: String| s@) =~= pre_map.push(
                    batch_views[i as int],
                ));
                assert(pre_map.push(batch_views[i as int]) =~= old_pending + batch_views.take(
                    i + 1,
                ));
                assert(self.pending@.map_values(|s: String| s@) =~= old_pending
                    + batch_views.take(i + 1));
                assert(batch_views.take(i + 1).to_set() =~= batch_views.take(
                    i as int,
                ).to_set().insert(batch_views[i as int]));
                assert(self.unpublished@ =~= old(self).unpublished@.difference(
                    batch_views.take(i + 1).to_set(),
                ));
            }
            i = i + 1;
        }
        proof {
            assert(batch_views.take(batch_views.len() as int) =~= batch_views);
            let pending_views = self.pending_urls();
            let launched_views = self.launched_urls();
            assert forall|a: int, b: int|
                0 <= a < pending_views.len() && 0 <= b < pending_views.len() && a != b implies
                pending_views[a] != pending_views[b] by {
                if a >= old_pending.len() && b >= old_pending.len() {
                    assert(pending_views[a] == batch_views[a - old_pending.len()]);
                    assert(pending_views[b] == batch_views[b - old_pending.len()]);
                } else if a < old_pending.len() && b >= old_pending.len() {
                    let u = batch_views[b - old_pending.len()];
                    assert(pending_views[b] == u);
                    assert(batch_views.to_set().contains(u));
                    assert(old_pending[a] == pending_views[a]);
                } else if b < old_pending.len() && a >= old_pending.len() {
                    let u = batch_views[a - old_pending.len()];
                    assert(pending_views[a] == u);
                    assert(batch_views.to_set().contains(u));
                    assert(old_pending[b] == pending_views[b]);
                }
            }
            assert forall|i2: int|
                0 <= i2 < pending_views.len() implies !launched_views.contains(
                #[trigger] pending_views[i2],
            ) by {
                if i2 < old_pending.len() {
                    assert(pending_views[i2] == old_pending[i2]);
                } else {
                    let u = batch_views[i2 - old_pending.len()];
                    assert(pending_views[i2] == u);
                    assert(batch_views.to_set().contains(u));
                    if launched_views.contains(u) {
                        let w = choose|w: int|
                            0 <= w < launched_views.len() && launched_views[w] == u;
                        assert(!old(self).unpublished_urls().contains(launched_views[w]));
                    }
                }
            }
            assert forall|i2: int|
                0 <= i2 < pending_views.len() implies !self.unpublished_urls().contains(
                #[trigger] pending_views[i2],
            ) by {
                if i2 < old_pending.len() {
                    assert(pending_views[i2] == old_pending[i2]);
                } else {
                    let u = batch_views[i2 - old_pending.len()];
                    assert(pending_views[i2] == u);
                    assert(batch_views.to_set().contains(u));
                }
            }
            assert forall|i2: int|
                0 <= i2 < launched_views.len() implies !self.unpublished_urls().contains(
                #[trigger] launched_views[i2],
            ) by {
                assert(!old(self).unpublished_urls().contains(launched_views[i2]));
            }
            lemma_to_set_add(old_pending, batch_views);
            assert(self.admitted() =~= pending_views.to_set() + launched_views.to_set()
                + self.unpublished_urls());
        }
    }

    /// The drain-and-refill step: hands out queued URLs, oldest first, while
    /// the in-flight count is below the limit currently in effect. Reading
    /// the limit afresh at each call is what makes a live change to the
    /// concurrency cap take effect at the next completion, without
    /// interrupting requests already issued. No task is started at or above
    /// the limit, and a run that starts below the limit stays below it.
    pub fn refill(&mut self, limit: u64) -> (started: Vec<String>)
        requires
            old(self).wf(),
            limit <= usize::MAX as u64,
        ensures
            final(self).wf(),
            final(self).seeds() == old(self).seeds(),
            final(self).admitted() == old(self).admitted(),
            final(self).completed_count() == old(self).completed_count(),
            final(self).unpublished_urls() == old(self).unpublished_urls(),
            started@.map_values(|s: String| s@) == old(self).pending_urls().take(
                started@.len() as int,
            ),
            final(self).pending_urls() == old(self).pending_urls().skip(started@.len() as int),
            final(self).launched_urls() == old(self).launched_urls() + started@.map_values(
                |s: String| s@,
            ),
            final(self).in_flight_count() == old(self).in_flight_count() + started@.len(),
            started@.len() == if old(self).in_flight_count() >= limit as int {
                0int
            } else if limit as int - old(self).in_flight_count() <= old(
                self,
            ).pending_urls().len() as int {
                limit as int - old(self).in_flight_count()
            } else {
                old(self).pending_urls().len() as int
            },
            old(self).in_flight_count() <= limit as int ==> final(self).in_flight_count()
                <= limit as int,
    {
        broadcast use vstd::seq_lib::group_seq_properties;

        let mut started: Vec<String> = Vec::new();
        let ghost old_pending = old(self).pending_urls();
        let ghost old_launched = old(self).launched_urls();
        while (self.in_flight as u64) < limit && self.pending.len() > 0
            invariant
                old(self).wf(),
                limit <= usize::MAX as u64,
                started@.len() <= old_pending.len(),
                old_pending == old(self).pending_urls(),
                old_launched == old(self).launched_urls(),
                started@.map_values(|s: String| s@) == old_pending.take(started@.len() as int),
                self.pending@.map_values(|s: String| s@) == old_pending.skip(
                    started@.len() as int,
                ),
                self.launched@ == old_launched + started@.map_values(|s: String| s@),
                self.in_flight as int == old(self).in_flight_count() + started@.len(),
                self.noticed_uris == old(self).noticed_uris,
                self.seed_urls == old(self).seed_urls,
                self.completed == old(self).completed,
                self.unpublished == old(self).unpublished,
                old(self).in_flight_count() >= limit as int ==> started@.len() == 0,
                self.in_flight as int <= if old(self).in_flight_count() >= limit as int {
                    old(self).in_flight_count()
                } else {
                    limit as int
                },
            decreases self.pending.len(),
        {
            let ghost n = started@.len() as int;
            let url = self.pending.remove(0);
            proof {
                assert(old_pending.skip(n).drop_first() =~= old_pending.skip(n + 1));
                assert(old_pending.skip(n)[0] == old_pending[n]);
                assert(url@ == old_pending[n]);
                assert(old_pending.take(n + 1) =~= old_pending.take(n).push(old_pending[n]));
            }
            self.launched = Ghost(self.launched@.push(url@));
            self.in_flight = self.in_flight + 1;
            started.push(url);
            proof {
                assert(started@.map_values(|s: String| s@) =~= old_pending.take(
                    started@.len() as int,
                ));
                assert(self.pending@.map_values(|s: String| s@) =~= old_pending.skip(
                    started@.len() as int,
                ));
                assert(self.launched@ =~= old_launched + started@.map_values(|s: String| s@));
            }
        }
        proof {
            let n = started@.len() as int;
            let started_views = started@.map_values(|s: String| s@);
            let pending_views = self.pending@.map_values(|s: String| s@);
            let launched_views = self.launched@;
            assert forall|a: int, b: int|
                0 <= a < launched_views.len() && 0 <= b < launched_views.len() && a != b implies
                launched_views[a] != launched_views[b] by {
                if a >= old_launched.len() && b >= old_launched.len() {
                    assert(launched_views[a] == old_pending[a - old_launched.len()]);
                    assert(launched_views[b] == old_pending[b - old_launched.len()]);
                } else if a < old_launched.len() && b >= old_launched.len() {
                    assert(launched_views[b] == old_pending[b - old_launched.len()]);
                    assert(old_pending.contains(old_pending[b - old_launched.len()]));
                } else if b < old_launched.len() && a >= old_launched.len() {
                    assert(launched_views[a] == old_pending[a - old_launched.len()]);
                    assert(old_pending.contains(old_pending[a - old_launched.len()]));
                }
            }
            assert forall|i2: int|
                0 <= i2 < pending_views.len() implies !launched_views.contains(
                #[trigger] pending_views[i2],
            ) by {
                assert(pending_views[i2] == old_pending[n + i2]);
                if launched_views.contains(pending_views[i2]) {
                    let w = choose|w: int|
                        0 <= w < launched_views.len() && launched_views[w] == pending_views[i2];
                    if w < old_launched.len() {
                        assert(old_pending.contains(old_pending[n + i2]));
                    } else {
                        assert(launched_views[w] == old_pending[w - old_launched.len()]);
                    }
                }
            }
            assert forall|i2: int|
                0 <= i2 < pending_views.len() implies !self.unpublished_urls().contains(
                #[trigger] pending_views[i2],
            ) by {
                assert(pending_views[i2] == old_pending[n + i2]);
            }
            assert forall|i2: int|
                0 <= i2 < launched_views.len() implies !self.unpublished_urls().contains(
                #[trigger] launched_views[i2],
            ) by {
                if i2 >= old_launched.len() {
                    assert(launched_views[i2] == old_pending[i2 - old_launched.len()]);
                }
            }
            lemma_to_set_add(old_launched, started_views);
            assert(started_views.to_set() + pending_views.to_set() =~= old_pending.to_set()) by {
                assert(started_views + pending_views =~= old_pending);
                lemma_to_set_add(started_views, pending_views);
            }
            assert(self.admitted() =~= pending_views.to_set() + launched_views.to_set()
                + self.unpublished_urls());
        }
        started
    }

    /// Records that one in-flight task finished, successfully or not; a
    /// failed task frees its slot like any other, so one failure never
    /// stops the run.
    pub fn task_completed(&mut self)
        requires
            old(self).wf(),
            old(self).in_flight_count() > 0,
        ensures
            final(self).wf(),
            final(self).seeds() == old(self).seeds(),
            final(self).admitted() == old(self).admitted(),
            final(self).pending_urls() == old(self).pending_urls(),
            final(self).launched_urls() == old(self).launched_urls(),
            final(self).unpublished_urls() == old(self).unpublished_urls(),
            final(self).in_flight_count() == old(self).in_flight_count() - 1,
            final(self).completed_count() == old(self).completed_count() + 1,
    {
        self.in_flight = self.in_flight - 1;
        self.completed = Ghost(self.completed@ + 1);
    }

    /// How many fetches are in flight right now.
    pub fn current_in_flight(&self) -> (n: usize)
        ensures
            n as int == self.in_flight_count(),
    {
        self.in_flight
    }

    /// Whether the run is over: nothing in flight and nothing queued. Every
    /// task either enqueues new work or adds nothing, and the frontier only
    /// grows, so once this holds no future work can appear.
    pub fn is_quiescent(&self) -> (r: bool)
        ensures
            r == (self.in_flight_count() == 0 && self.pending_urls().len() == 0),
    {
        self.in_flight == 0 && self.pending.len() == 0
    }
}

/// Exclusive scheduling: whatever sequence of links was discovered, with
/// whatever duplicates, each distinct (fragment-stripped) URL has been handed
/// out for fetching at most once.
pub proof fn lemma_exclusive_scheduling(o: Orchestrator)
    requires
        o.wf(),
    ensures
        o.launched_urls().no_duplicates(),
{
}

/// Work is bounded: every fetch ever handed out is for a distinct admitted
/// URL, so the number of fetches a run can start — completed and in flight
/// together — never exceeds the number of distinct URLs admitted. Admission
/// only ever adds seeds, resumed links, or filter-passing links of fetched
/// pages, so over a finite reachable link graph the admitted set, and with
/// it the whole run, is finite.
pub proof fn lemma_work_is_bounded(o: Orchestrator)
    requires
        o.wf(),
    ensures
        o.completed_count() + o.in_flight_count() == o.launched_urls().len(),
        o.launched_urls().len() == o.launched_urls().to_set().len(),
        o.launched_urls().to_set().subset_of(o.admitted()),
{
    o.launched_urls().unique_seq_to_set();
    assert forall|x: Seq<char>| o.launched_urls().to_set().contains(x) implies o.admitted().contains(
        x,
    ) by {
        assert(o.admitted() == o.pending_urls().to_set() + o.launched_urls().to_set()
            + o.unpublished_urls());
    }
}

/// Quiescence is complete: when nothing is in flight, nothing is queued,
/// and every admitted batch has been published, every URL ever admitted has
/// been handed out and every handed-out fetch has completed — so the record
/// the driver keeps of completions covers the whole admitted frontier.
pub proof fn lemma_quiescence_is_complete(o: Orchestrator)
    requires
        o.wf(),
        o.in_flight_count() == 0,
        o.pending_urls().len() == 0,
        o.unpublished_urls() == Set::<Seq<char>>::empty(),
    ensures
        o.launched_urls().to_set() == o.admitted(),
        o.completed_count() == o.launched_urls().len(),
{
    broadcast use vstd::seq_lib::group_seq_properties;

    assert(o.pending_urls().to_set() =~= Set::<Seq<char>>::empty());
    assert(o.admitted() =~= o.launched_urls().to_set());
}

} // verus!
