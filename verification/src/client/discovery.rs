//! Finding the writer of a cluster.
use vstd::prelude::*;

use crate::client::config::DiscoveryMode;
use crate::client::error::ClientError;
use crate::proto::ReportedRole;
use crate::text;

verus! {

/// How long a candidate may take to answer, in milliseconds.
pub const CANDIDATE_PROBE_TIMEOUT_MS: u64 = 1500;

/// An endpoint with a scheme.
pub open spec fn normalized(endpoint: Seq<char>) -> Seq<char> {
    let t = text::trimmed(endpoint);
    if "http://"@.is_prefix_of(t) || "https://"@.is_prefix_of(t) {
        t
    } else {
        "http://"@ + t
    }
}

/// An endpoint with a scheme: `http://` where it has none.
pub fn normalize_endpoint(ep: &str) -> (r: String)
    ensures
        r@ == normalized(ep@),
{
    let trimmed: String = text::trim(ep);
    if text::starts_with(trimmed.as_str(), "http://") || text::starts_with(
        trimmed.as_str(),
        "https://",
    ) {
        trimmed
    } else {
        let mut s: String = "http://".to_owned();
        s.append(trimmed.as_str());
        s
    }
}

/// A normalized endpoint stays as it is.
pub proof fn law_normalizing_twice_changes_nothing(endpoint: Seq<char>)
    ensures
        normalized(normalized(endpoint)) == normalized(endpoint),
{
    let t = text::trimmed(endpoint);
    let n = normalized(endpoint);
    text::lemma_trimmed_ends(endpoint);
    reveal_strlit("http://");
    reveal_strlit("https://");
    if n != t {
        assert(n.subrange(0, 7) == "http://"@);
        assert(n[0] == 'h');
        assert(n.last() == if t.len() > 0 {
            t.last()
        } else {
            '/'
        });
        text::lemma_trimmed_fixpoint(n);
    }
}

/// What is wrong with the text of an endpoint: the error text of
/// `tonic::transport::Endpoint::from_shared` on it, where that gives one.
pub uninterp spec fn endpoint_problem(endpoint: Seq<char>) -> Option<Seq<char>>;

/// `tonic::transport::Endpoint::from_shared`: whether the text of an endpoint is
/// well-formed, and else the error text. Which texts are well-formed is left to
/// that function.
#[verifier::external_body]
pub(crate) fn check_endpoint(endpoint: &str) -> (r: Option<String>)
    ensures
        text::opt_view(r) == endpoint_problem(endpoint@),
{
    tonic::transport::Endpoint::from_shared(endpoint.to_string()).err().map(|e| e.to_string())
}

/// What to do next to find the writer.
#[derive(Debug)]
pub enum SearchStep {
    /// Ask this endpoint for its role.
    Probe(String),
    /// Ask the caller's own resolver.
    Resolve,
    /// The writer is at this endpoint.
    Leader(String),
    /// The writer was not found.
    Failed(ClientError),
}

/// What to do next to find the writer, as plain data.
#[verifier::ext_equal]
pub enum SearchView {
    Probe(Seq<char>),
    Resolve,
    Leader(Seq<char>),
    /// Discovery failed with this message and, perhaps, this reason.
    Failed(Seq<char>, Option<Seq<char>>),
}

impl SearchStep {
    /// What this step says.
    pub open spec fn is(self, v: SearchView) -> bool {
        match self {
            SearchStep::Probe(e) => v == SearchView::Probe(e@),
            SearchStep::Resolve => v == SearchView::Resolve,
            SearchStep::Leader(e) => v == SearchView::Leader(e@),
            SearchStep::Failed(error) => error matches ClientError::Discovery { message, source }
                && v == SearchView::Failed(message@, text::opt_view(source)),
        }
    }
}

/// The first candidate from index `i` on with a well-formed endpoint; their
/// number where there is none.
pub open spec fn next_valid(valid: Seq<bool>, i: int) -> int
    decreases valid.len() - i,
{
    if i < 0 || i >= valid.len() {
        valid.len() as int
    } else if valid[i] {
        i
    } else {
        next_valid(valid, i + 1)
    }
}

/// The step when the candidates before index `i` are done with.
pub open spec fn search_from(endpoints: Seq<Seq<char>>, valid: Seq<bool>, i: int) -> SearchView {
    if next_valid(valid, i) < valid.len() {
        SearchView::Probe(endpoints[next_valid(valid, i)])
    } else if next_valid(valid, 0) < valid.len() {
        SearchView::Leader(endpoints[next_valid(valid, 0)])
    } else {
        SearchView::Failed("no syntactically valid candidates configured for discovery"@, None)
    }
}

/// A search among candidates.
#[derive(Debug)]
pub struct LeaderSearch {
    endpoints: Vec<String>,
    valid: Vec<bool>,
    at: usize,
}

fn find_valid(valid: &Vec<bool>, from: usize) -> (r: usize)
    requires
        from <= valid@.len(),
    ensures
        r == next_valid(valid@, from as int),
        r < valid@.len() ==> r >= from,
{
    let mut i: usize = from;
    while i < valid.len() && !valid[i]
        invariant
            from <= i <= valid@.len(),
            next_valid(valid@, from as int) == next_valid(valid@, i as int),
        decreases valid@.len() - i,
    {
        i = i + 1;
    }
    i
}

impl LeaderSearch {
    /// The endpoints of the candidates.
    pub closed spec fn candidates(self) -> Seq<Seq<char>> {
        text::views(self.endpoints@)
    }

    /// Which of them are well-formed.
    pub closed spec fn well_formed(self) -> Seq<bool> {
        self.valid@
    }

    /// The index of the candidate that is being asked.
    pub closed spec fn asking(self) -> int {
        self.at as int
    }

    /// One flag for each candidate.
    pub closed spec fn wf(self) -> bool {
        self.endpoints@.len() == self.valid@.len()
    }

    /// The step when the candidates before index `from` are done with.
    fn go_on(&mut self, from: usize) -> (r: SearchStep)
        requires
            old(self).wf(),
            from <= old(self).well_formed().len(),
        ensures
            final(self).wf(),
            final(self).candidates() == old(self).candidates(),
            final(self).well_formed() == old(self).well_formed(),
            r.is(search_from(old(self).candidates(), old(self).well_formed(), from as int)),
            r is Probe ==> final(self).asking() == next_valid(
                old(self).well_formed(),
                from as int,
            ) && final(self).asking() < old(self).well_formed().len(),
    {
        let next: usize = find_valid(&self.valid, from);
        if next < self.valid.len() {
            self.at = next;
            assert(self.candidates()[next as int] == self.endpoints@[next as int]@);
            return SearchStep::Probe(self.endpoints[next].clone());
        }
        let first: usize = find_valid(&self.valid, 0);
        if first < self.valid.len() {
            assert(self.candidates()[first as int] == self.endpoints@[first as int]@);
            return SearchStep::Leader(self.endpoints[first].clone());
        }
        SearchStep::Failed(
            ClientError::discovery("no syntactically valid candidates configured for discovery"),
        )
    }

    /// Search among these endpoints, of which those flagged are well-formed.
    pub fn among(endpoints: Vec<String>, valid: Vec<bool>) -> (r: (LeaderSearch, SearchStep))
        requires
            endpoints@.len() == valid@.len(),
        ensures
            r.0.wf(),
            r.0.candidates() == text::views(endpoints@),
            r.0.well_formed() == valid@,
            r.1.is(search_from(text::views(endpoints@), valid@, 0)),
            r.1 is Probe ==> r.0.asking() == next_valid(valid@, 0) && r.0.asking() < valid@.len(),
    {
        let mut search: LeaderSearch = LeaderSearch { endpoints, valid, at: 0 };
        let step: SearchStep = search.go_on(0);
        (search, step)
    }

    /// The candidate that was asked answered with its role, or did not.
    pub fn on_probe(&mut self, role: Option<ReportedRole>) -> (r: SearchStep)
        requires
            old(self).wf(),
            0 <= old(self).asking() < old(self).well_formed().len(),
        ensures
            final(self).wf(),
            final(self).candidates() == old(self).candidates(),
            final(self).well_formed() == old(self).well_formed(),
            if role == Some(ReportedRole::Writer) {
                r.is(SearchView::Leader(old(self).candidates()[old(self).asking()]))
            } else {
                r.is(
                    search_from(
                        old(self).candidates(),
                        old(self).well_formed(),
                        old(self).asking() + 1,
                    ),
                )
            },
            r is Probe ==> final(self).asking() == next_valid(
                old(self).well_formed(),
                old(self).asking() + 1,
            ) && final(self).asking() < old(self).well_formed().len(),
    {
        match role {
            Some(ReportedRole::Writer) => {
                assert(self.candidates()[self.at as int] == self.endpoints@[self.at as int]@);
                SearchStep::Leader(self.endpoints[self.at].clone())
            },
            _ => {
                let n: usize = self.valid.len();
                assert(self.at < n);
                let from: usize = self.at + 1;
                self.go_on(from)
            },
        }
    }
}

/// The endpoints of these candidates.
pub open spec fn normalized_all(candidates: Seq<String>) -> Seq<Seq<char>> {
    Seq::new(candidates.len(), |i: int| normalized(candidates[i]@))
}

/// Which endpoints are well-formed.
pub open spec fn validity(endpoints: Seq<Seq<char>>) -> Seq<bool> {
    Seq::new(endpoints.len(), |i: int| endpoint_problem(endpoints[i]) is None)
}

/// The first step to find the writer.
pub open spec fn first_step(mode: DiscoveryMode) -> SearchView {
    match mode {
        DiscoveryMode::Direct(endpoint) => SearchView::Leader(normalized(endpoint@)),
        DiscoveryMode::Candidates(candidates) => search_from(
            normalized_all(candidates@),
            validity(normalized_all(candidates@)),
            0,
        ),
        DiscoveryMode::Custom => SearchView::Resolve,
    }
}

fn prepare(candidates: &Vec<String>) -> (r: (Vec<String>, Vec<bool>))
    ensures
        text::views(r.0@) == normalized_all(candidates@),
        r.1@ == validity(normalized_all(candidates@)),
{
    let mut endpoints: Vec<String> = Vec::new();
    let mut valid: Vec<bool> = Vec::new();
    let mut i: usize = 0;
    while i < candidates.len()
        invariant
            i <= candidates@.len(),
            endpoints@.len() == i,
            valid@.len() == i,
            forall|j: int|
                0 <= j < i ==> (#[trigger] endpoints@[j])@ == normalized(candidates@[j]@),
            forall|j: int|
                0 <= j < i ==> #[trigger] valid@[j] == (endpoint_problem(
                    normalized(candidates@[j]@),
                ) is None),
        decreases candidates@.len() - i,
    {
        let endpoint: String = normalize_endpoint(candidates[i].as_str());
        let ok: bool = check_endpoint(endpoint.as_str()).is_none();
        endpoints.push(endpoint);
        valid.push(ok);
        i = i + 1;
    }
    assert(text::views(endpoints@) =~= normalized_all(candidates@));
    assert(valid@ =~= validity(normalized_all(candidates@)));
    (endpoints, valid)
}

/// Begin to find the writer.
pub fn discover_leader(mode: &DiscoveryMode) -> (r: (LeaderSearch, SearchStep))
    ensures
        r.0.wf(),
        r.1.is(first_step(*mode)),
        mode matches DiscoveryMode::Candidates(candidates) ==> r.0.candidates() == normalized_all(
            candidates@,
        ) && r.0.well_formed() == validity(normalized_all(candidates@)),
        r.1 is Probe ==> r.0.asking() == next_valid(r.0.well_formed(), 0) && r.0.asking()
            < r.0.well_formed().len(),
{
    match mode {
        DiscoveryMode::Direct(endpoint) => {
            let none: LeaderSearch = LeaderSearch {
                endpoints: Vec::new(),
                valid: Vec::new(),
                at: 0,
            };
            (none, SearchStep::Leader(normalize_endpoint(endpoint.as_str())))
        },
        DiscoveryMode::Candidates(candidates) => {
            let (endpoints, valid) = prepare(candidates);
            assert(text::views(endpoints@).len() == endpoints@.len());
            LeaderSearch::among(endpoints, valid)
        },
        DiscoveryMode::Custom => {
            let none: LeaderSearch = LeaderSearch {
                endpoints: Vec::new(),
                valid: Vec::new(),
                at: 0,
            };
            (none, SearchStep::Resolve)
        },
    }
}

/// The caller's own resolver answered, or failed.
pub fn on_resolved(outcome: Result<String, String>) -> (r: SearchStep)
    ensures
        match outcome {
            Ok(endpoint) => r.is(SearchView::Leader(normalized(endpoint@))),
            Err(e) => r.is(SearchView::Failed("custom resolver failed"@, Some(e@))),
        },
{
    match outcome {
        Ok(endpoint) => SearchStep::Leader(normalize_endpoint(endpoint.as_str())),
        Err(e) => SearchStep::Failed(
            ClientError::discovery_with_source("custom resolver failed", e),
        ),
    }
}

/// The end of a search in which each candidate, when asked, answers as given.
pub open spec fn search_end(
    endpoints: Seq<Seq<char>>,
    valid: Seq<bool>,
    answers: Seq<Option<ReportedRole>>,
    i: int,
) -> SearchView
    decreases valid.len() - i,
    when i >= 0
{
    let j = next_valid(valid, i);
    if j < valid.len() && j >= i {
        if answers[j] == Some(ReportedRole::Writer) {
            SearchView::Leader(endpoints[j])
        } else {
            search_end(endpoints, valid, answers, j + 1)
        }
    } else {
        search_from(endpoints, valid, i)
    }
}

/// A candidate is fit if it is well-formed and answers that it is the writer.
pub open spec fn fit(valid: Seq<bool>, answers: Seq<Option<ReportedRole>>, i: int) -> bool {
    valid[i] && answers[i] == Some(ReportedRole::Writer)
}

proof fn lemma_next_valid(valid: Seq<bool>, i: int)
    requires
        0 <= i <= valid.len(),
    ensures
        i <= next_valid(valid, i) <= valid.len(),
        next_valid(valid, i) < valid.len() ==> valid[next_valid(valid, i)],
        forall|k: int| i <= k < next_valid(valid, i) ==> !#[trigger] valid[k],
    decreases valid.len() - i,
{
    if i < valid.len() && !valid[i] {
        lemma_next_valid(valid, i + 1);
    }
}

proof fn lemma_search_end(
    endpoints: Seq<Seq<char>>,
    valid: Seq<bool>,
    answers: Seq<Option<ReportedRole>>,
    i: int,
    leader: int,
)
    requires
        0 <= i <= leader < valid.len(),
        fit(valid, answers, leader),
        forall|k: int| i <= k < leader ==> !#[trigger] fit(valid, answers, k),
    ensures
        search_end(endpoints, valid, answers, i) == SearchView::Leader(endpoints[leader]),
    decreases valid.len() - i,
{
    lemma_next_valid(valid, i);
    let j = next_valid(valid, i);
    assert(j <= leader);
    if answers[j] == Some(ReportedRole::Writer) {
        assert(fit(valid, answers, j));
        assert(j == leader);
    } else {
        assert(j != leader);
        lemma_search_end(endpoints, valid, answers, j + 1, leader);
    }
}

/// The search ends with the first candidate that is well-formed and says that it
/// is the writer.
pub proof fn law_search_finds_first_writer(
    endpoints: Seq<Seq<char>>,
    valid: Seq<bool>,
    answers: Seq<Option<ReportedRole>>,
    leader: int,
)
    requires
        0 <= leader < valid.len(),
        fit(valid, answers, leader),
        forall|k: int| 0 <= k < leader ==> !#[trigger] fit(valid, answers, k),
    ensures
        search_end(endpoints, valid, answers, 0) == SearchView::Leader(endpoints[leader]),
{
    lemma_search_end(endpoints, valid, answers, 0, leader);
}

proof fn lemma_search_fallback(
    endpoints: Seq<Seq<char>>,
    valid: Seq<bool>,
    answers: Seq<Option<ReportedRole>>,
    i: int,
)
    requires
        0 <= i <= valid.len(),
        forall|k: int| 0 <= k < valid.len() ==> !#[trigger] fit(valid, answers, k),
    ensures
        search_end(endpoints, valid, answers, i) == search_from(
            endpoints,
            valid,
            valid.len() as int,
        ),
    decreases valid.len() - i,
{
    lemma_next_valid(valid, i);
    let j = next_valid(valid, i);
    if j < valid.len() {
        assert(!fit(valid, answers, j));
        lemma_search_fallback(endpoints, valid, answers, j + 1);
    }
}

/// Where no candidate says that it is the writer, the search ends with the first
/// well-formed one, and fails where there is none.
pub proof fn law_search_falls_back_to_first_valid(
    endpoints: Seq<Seq<char>>,
    valid: Seq<bool>,
    answers: Seq<Option<ReportedRole>>,
)
    requires
        forall|k: int| 0 <= k < valid.len() ==> !#[trigger] fit(valid, answers, k),
    ensures
        search_end(endpoints, valid, answers, 0) == if next_valid(valid, 0) < valid.len() {
            SearchView::Leader(endpoints[next_valid(valid, 0)])
        } else {
            SearchView::Failed(
                "no syntactically valid candidates configured for discovery"@,
                None,
            )
        },
{
    lemma_search_fallback(endpoints, valid, answers, 0);
    lemma_next_valid(valid, valid.len() as int);
}

/// An endpoint with a scheme is kept, and one without is reached over `http`; white
/// space around it does not count.
pub proof fn law_endpoint_gets_a_scheme(pre: Seq<char>, rest: Seq<char>, post: Seq<char>)
    requires
        text::all_spaces(pre),
        text::all_spaces(post),
        rest.len() > 0 && !text::is_space(rest[0]) && !text::is_space(rest.last()),
    ensures
        normalized(pre + ("http://"@ + rest) + post) == "http://"@ + rest,
        normalized(pre + ("https://"@ + rest) + post) == "https://"@ + rest,
        !"http://"@.is_prefix_of(rest) && !"https://"@.is_prefix_of(rest) ==> normalized(
            pre + rest + post,
        ) == "http://"@ + rest,
{
    reveal_strlit("http://");
    reveal_strlit("https://");
    let a = "http://"@ + rest;
    let b = "https://"@ + rest;
    assert(a[0] == 'h' && a.last() == rest.last());
    assert(b[0] == 'h' && b.last() == rest.last());
    text::law_trimming_takes_the_surrounding_space(pre, a, post);
    text::law_trimming_takes_the_surrounding_space(pre, b, post);
    text::law_trimming_takes_the_surrounding_space(pre, rest, post);
    assert("http://"@.is_prefix_of(a));
    assert("https://"@.is_prefix_of(b));
}

/// The next valid candidate is the first one from an index on that is well-formed;
/// there is none exactly if none is.
pub proof fn law_next_valid_is_the_first_one(valid: Seq<bool>, i: int)
    requires
        0 <= i <= valid.len(),
    ensures
        i <= next_valid(valid, i) <= valid.len(),
        forall|k: int| i <= k < next_valid(valid, i) ==> !(#[trigger] valid[k]),
        next_valid(valid, i) < valid.len() ==> valid[next_valid(valid, i)],
    decreases valid.len() - i,
{
    if i < valid.len() && !valid[i] {
        law_next_valid_is_the_first_one(valid, i + 1);
    }
}

/// The search begins with what the mode says: the one endpoint is the writer's, a
/// resolver is asked, and of candidates the first well-formed one is.
pub proof fn law_search_begins_as_the_mode_says(mode: DiscoveryMode, k: int)
    ensures
        mode matches DiscoveryMode::Direct(endpoint) ==> first_step(mode) == SearchView::Leader(
            normalized(endpoint@),
        ),
        mode is Custom ==> first_step(mode) is Resolve,
        mode matches DiscoveryMode::Candidates(candidates) ==> {
            let problem = |i: int| endpoint_problem(normalized(candidates@[i]@));
            &&& (0 <= k < candidates@.len() && problem(k) is None && (forall|i: int|
                0 <= i < k ==> (#[trigger] problem(i)) is Some)) ==> first_step(mode)
                == SearchView::Probe(normalized(candidates@[k]@))
            &&& (forall|i: int| 0 <= i < candidates@.len() ==> (#[trigger] problem(i)) is Some)
                ==> first_step(mode) is Failed
        },
{
    match mode {
        DiscoveryMode::Candidates(candidates) => {
            let all = normalized_all(candidates@);
            let valid = validity(all);
            let problem = |i: int| endpoint_problem(normalized(candidates@[i]@));
            law_next_valid_is_the_first_one(valid, 0);
            let n = next_valid(valid, 0);
            assert forall|i: int| 0 <= i < valid.len() implies valid[i] == (#[trigger] problem(
                i,
            ) is None) by {}
            if 0 <= k < candidates@.len() && problem(k) is None && (forall|i: int|
                0 <= i < k ==> (#[trigger] problem(i)) is Some) {
                assert(valid[k]);
                if n < k {
                    assert(problem(n) is Some);
                }
                assert(n == k);
            }
            if forall|i: int| 0 <= i < candidates@.len() ==> (#[trigger] problem(i)) is Some {
                if n < valid.len() {
                    assert(problem(n) is Some);
                }
            }
        },
        _ => {},
    }
}

} // verus!
