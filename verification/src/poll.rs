//! GitHub polling.
//!
//! Discovers repos for org subscriptions, then polls each repo for issues, PRs, and comments
//! since the last poll.
//!
//! A poll run alternates between a request to GitHub and the reply to it. [`PollRun::request`]
//! says what to ask for; [`GitHubPoller::advance`] takes in the reply.

use crate::config::RawSubscription;
use crate::github::{
    event_of_comment, event_of_issue, CommentPage, IssuePage, RepoPage, RepoState,
    DISCOVERY_MINUTES, FIRST_FETCH_PAGES,
};
use crate::order::insert_text;
use crate::text::{chars_of, str_eq};
use crate::time::Timestamp;
use crate::wire::GhEvent;
use vstd::hash_map::StringHashMap;
use vstd::prelude::*;
use vstd::string::{StrSliceExecFns, StringExecFns};

verus! {

/// What the poller knows between poll runs.
pub struct GitHubPoller {
    /// Subscriptions from config (org or repo).
    subscriptions: Vec<RawSubscription>,
    /// Discovered repos for org subscriptions: org_name -> vec of "owner/repo".
    org_repos: StringHashMap<Vec<String>>,
    /// Per-repo polling state.
    repo_states: StringHashMap<RepoState>,
    /// When we last discovered org repos.
    last_org_discovery: Option<Timestamp>,
}

/// The contents of a poller.
#[verifier::ext_equal]
pub struct PollerModel {
    pub subscriptions: Seq<crate::config::RawSubscriptionModel>,
    pub org_repos: Map<Seq<char>, Seq<Seq<char>>>,
    pub repo_states: Map<Seq<char>, RepoState>,
    pub last_org_discovery: Option<Timestamp>,
}

impl View for GitHubPoller {
    type V = PollerModel;

    closed spec fn view(&self) -> PollerModel {
        PollerModel {
            subscriptions: crate::config::raw_subscription_models(self.subscriptions@),
            org_repos: self.org_repos@.map_values(|v: Vec<String>| crate::order::texts(v@)),
            repo_states: self.repo_states@,
            last_org_discovery: self.last_org_discovery,
        }
    }
}

/// How far a poll run has come.
pub enum PollStage {
    /// Listing the repos of the org at place `at`, of which `listed` were listed so far.
    Discover { started: Timestamp, orgs: Vec<String>, at: usize, page: u32, listed: Vec<String> },
    /// Listing the issues of the repo at place `at`.
    Issues {
        repos: Vec<String>,
        at: usize,
        since: Option<Timestamp>,
        comments_since: Option<Timestamp>,
        page: u32,
        found: Vec<GhEvent>,
    },
    /// Listing the comments of the repo at place `at`.
    Comments {
        repos: Vec<String>,
        at: usize,
        since: Option<Timestamp>,
        page: u32,
        found: Vec<GhEvent>,
    },
    /// There is nothing left to ask.
    Finished,
}

/// How far a poll run has come.
#[verifier::ext_equal]
pub enum StageModel {
    Discover {
        started: Timestamp,
        orgs: Seq<Seq<char>>,
        at: int,
        page: u32,
        listed: Seq<Seq<char>>,
    },
    Issues {
        repos: Seq<Seq<char>>,
        at: int,
        since: Option<Timestamp>,
        comments_since: Option<Timestamp>,
        page: u32,
        found: Seq<crate::wire::EventModel>,
    },
    Comments {
        repos: Seq<Seq<char>>,
        at: int,
        since: Option<Timestamp>,
        page: u32,
        found: Seq<crate::wire::EventModel>,
    },
    Finished,
}

impl View for PollStage {
    type V = StageModel;

    open spec fn view(&self) -> StageModel {
        match *self {
            PollStage::Discover { started, orgs, at, page, listed: found } => StageModel::Discover {
                started,
                orgs: crate::order::texts(orgs@),
                at: at as int,
                page,
                listed: crate::order::texts(found@),
            },
            PollStage::Issues { repos, at, since, comments_since, page, found } =>
                StageModel::Issues {
                repos: crate::order::texts(repos@),
                at: at as int,
                since,
                comments_since,
                page,
                found: crate::wire::event_models(found@),
            },
            PollStage::Comments { repos, at, since, page, found } => StageModel::Comments {
                repos: crate::order::texts(repos@),
                at: at as int,
                since,
                page,
                found: crate::wire::event_models(found@),
            },
            PollStage::Finished => StageModel::Finished,
        }
    }
}

/// A poll of all subscribed repos that is under way, with the events that it has brought.
pub struct PollRun {
    pub stage: PollStage,
    pub events: Vec<GhEvent>,
}

/// The contents of a poll run.
#[verifier::ext_equal]
pub struct RunModel {
    pub stage: StageModel,
    pub events: Seq<crate::wire::EventModel>,
}

impl View for PollRun {
    type V = RunModel;

    open spec fn view(&self) -> RunModel {
        RunModel { stage: self.stage@, events: crate::wire::event_models(self.events@) }
    }
}

/// A request to GitHub.
#[derive(Debug)]
pub enum PollRequest {
    /// A page of an org's repos.
    Repos { org: String, page: u32 },
    /// A page of a repo's issues and PRs, open and closed, the latest updated first, only those
    /// updated since a point in time where one is given.
    Issues { owner: String, repo: String, since: Option<Timestamp>, page: u32 },
    /// A page of the comments on a repo's issues and PRs, in the same order.
    Comments { owner: String, repo: String, since: Option<Timestamp>, page: u32 },
}

/// The contents of a request to GitHub.
pub enum RequestModel {
    Repos { org: Seq<char>, page: u32 },
    Issues { owner: Seq<char>, repo: Seq<char>, since: Option<Timestamp>, page: u32 },
    Comments { owner: Seq<char>, repo: Seq<char>, since: Option<Timestamp>, page: u32 },
}

impl View for PollRequest {
    type V = RequestModel;

    open spec fn view(&self) -> RequestModel {
        match *self {
            PollRequest::Repos { org, page } => RequestModel::Repos { org: org@, page },
            PollRequest::Issues { owner, repo, since, page } => RequestModel::Issues {
                owner: owner@,
                repo: repo@,
                since,
                page,
            },
            PollRequest::Comments { owner, repo, since, page } => RequestModel::Comments {
                owner: owner@,
                repo: repo@,
                since,
                page,
            },
        }
    }
}

/// The reply to a request to GitHub.
#[derive(Debug)]
pub enum PollReply {
    Repos(RepoPage),
    Issues(IssuePage),
    Comments(CommentPage),
    /// The request failed.
    Failed,
}

/// Whether the repos of orgs are to be discovered: they were not yet, or ten minutes ago.
pub open spec fn discovery_due(last: Option<Timestamp>, now: Timestamp) -> bool {
    match last {
        Some(last) => crate::time::whole_minutes(
            crate::time::nanos_between(
                last.seconds(),
                last.subsec_nanos(),
                now.seconds(),
                now.subsec_nanos(),
            ),
        ) >= 10,
        None => true,
    }
}

/// The orgs among the subscriptions.
pub open spec fn org_names(subscriptions: Seq<crate::config::RawSubscriptionModel>) -> Seq<
    Seq<char>,
>
    decreases subscriptions.len(),
{
    if subscriptions.len() == 0 {
        Seq::empty()
    } else if subscriptions.last().kind == "org"@ {
        org_names(subscriptions.drop_last()).push(subscriptions.last().name)
    } else {
        org_names(subscriptions.drop_last())
    }
}

/// The repos that a subscription stands for: those discovered for an org, or the repo itself.
/// A subscription of another kind stands for none.
pub open spec fn subscribed_repos(
    s: crate::config::RawSubscriptionModel,
    org_repos: Map<Seq<char>, Seq<Seq<char>>>,
) -> Seq<Seq<char>> {
    if s.kind == "org"@ {
        if org_repos.contains_key(s.name) {
            org_repos[s.name]
        } else {
            Seq::empty()
        }
    } else if s.kind == "repo"@ {
        seq![s.name]
    } else {
        Seq::empty()
    }
}

/// The repos that the subscriptions stand for, one subscription after the other.
pub open spec fn all_subscribed_repos(
    subscriptions: Seq<crate::config::RawSubscriptionModel>,
    org_repos: Map<Seq<char>, Seq<Seq<char>>>,
) -> Seq<Seq<char>>
    decreases subscriptions.len(),
{
    if subscriptions.len() == 0 {
        Seq::empty()
    } else {
        all_subscribed_repos(subscriptions.drop_last(), org_repos) + subscribed_repos(
            subscriptions.last(),
            org_repos,
        )
    }
}

/// All repos to poll, in order, each of them once.
pub open spec fn repo_names(p: PollerModel) -> Seq<Seq<char>> {
    crate::order::ordered_set(all_subscribed_repos(p.subscriptions, p.org_repos))
}

/// The part of a repo's full name before its first slash.
pub open spec fn owner_part(full: Seq<char>) -> Seq<char>
    decreases full.len(),
{
    if full.len() == 0 || full[0] == '/' {
        Seq::empty()
    } else {
        seq![full[0]] + owner_part(full.drop_first())
    }
}

/// The part of a repo's full name behind its first slash.
pub open spec fn repo_part(full: Seq<char>) -> Seq<char> {
    full.skip(owner_part(full).len() as int + 1)
}

/// Whether a full name has the form owner/repo.
pub open spec fn is_repo_name(full: Seq<char>) -> bool {
    full.contains('/')
}

/// The full names in a page of repos, as far as they are known.
pub open spec fn known_names(names: Seq<Option<String>>) -> Seq<Seq<char>>
    decreases names.len(),
{
    if names.len() == 0 {
        Seq::empty()
    } else {
        match names.last() {
            Some(name) => known_names(names.drop_last()).push(name@),
            None => known_names(names.drop_last()),
        }
    }
}

/// The polling state of a repo: nothing polled, where it was not seen before.
pub open spec fn state_of(p: PollerModel, repo: Seq<char>) -> RepoState {
    if p.repo_states.contains_key(repo) {
        p.repo_states[repo]
    } else {
        RepoState { last_issue_poll: None, last_comment_poll: None }
    }
}

/// Goes on with the first repo from place `at` whose name is valid.
pub open spec fn enter_repos(p: PollerModel, repos: Seq<Seq<char>>, at: int) -> (
    PollerModel,
    StageModel,
)
    decreases repos.len() - at,
{
    if at < 0 || at >= repos.len() {
        (p, StageModel::Finished)
    } else if is_repo_name(repos[at]) {
        let state = state_of(p, repos[at]);
        (
            PollerModel { repo_states: p.repo_states.insert(repos[at], state), ..p },
            StageModel::Issues {
                repos,
                at,
                since: state.last_issue_poll,
                comments_since: state.last_comment_poll,
                page: 1,
                found: Seq::empty(),
            },
        )
    } else {
        enter_repos(p, repos, at + 1)
    }
}

/// Ends the discovery that was started at a point in time, and goes on with the repos.
pub open spec fn end_discovery(p: PollerModel, started: Timestamp) -> (PollerModel, StageModel) {
    enter_repos(
        PollerModel { last_org_discovery: Some(started), ..p },
        repo_names(p),
        0,
    )
}

/// Goes on with the org at place `at`, or with the repos where there is none.
pub open spec fn enter_org(
    p: PollerModel,
    started: Timestamp,
    orgs: Seq<Seq<char>>,
    at: int,
) -> (PollerModel, StageModel) {
    if at < orgs.len() {
        (p, StageModel::Discover { started, orgs, at, page: 1, listed: Seq::empty() })
    } else {
        end_discovery(p, started)
    }
}

/// Begins a poll run.
pub open spec fn begun(p: PollerModel, now: Timestamp) -> (PollerModel, RunModel) {
    let (p2, stage) = if discovery_due(p.last_org_discovery, now) {
        enter_org(p, now, org_names(p.subscriptions), 0)
    } else {
        enter_repos(p, repo_names(p), 0)
    };
    (p2, RunModel { stage, events: Seq::empty() })
}

/// Whether a listing of issues or comments goes on behind the page `page`, which had items.
pub open spec fn listing_goes_on(has_next: bool, since: Option<Timestamp>, page: u32) -> bool {
    has_next && (since is Some || page < 3)
}

/// Takes in a reply while the repos of an org are listed.
pub open spec fn advance_discovery(
    p: PollerModel,
    started: Timestamp,
    orgs: Seq<Seq<char>>,
    at: int,
    page: u32,
    found: Seq<Seq<char>>,
    reply: PollReply,
) -> (PollerModel, StageModel) {
    match reply {
        PollReply::Repos(repos) => {
            let found = found + known_names(repos.full_names@);
            if repos.full_names@.len() > 0 && repos.has_next {
                (p, StageModel::Discover { started, orgs, at, page: (page + 1) as u32, listed: found })
            } else {
                enter_org(
                    PollerModel { org_repos: p.org_repos.insert(orgs[at], found), ..p },
                    started,
                    orgs,
                    at + 1,
                )
            }
        },
        _ => enter_org(p, started, orgs, at + 1),
    }
}

/// Takes in a reply: what the poller knows then, and how far the run has come. A reply to
/// another kind of request counts as a failure.
pub open spec fn advanced(p: PollerModel, run: RunModel, reply: PollReply, now: Timestamp) -> (
    PollerModel,
    RunModel,
) {
    match run.stage {
        StageModel::Discover { started, orgs, at, page, listed: found } => {
            let (p2, stage) = advance_discovery(p, started, orgs, at, page, found, reply);
            (p2, RunModel { stage, events: run.events })
        },
        StageModel::Issues { repos, at, since, comments_since, page, found } => {
            let comments = StageModel::Comments {
                repos,
                at,
                since: comments_since,
                page: 1,
                found: Seq::empty(),
            };
            match reply {
                PollReply::Issues(issues) => {
                    let found = found + crate::github::issue_events(repos[at], issues.items@);
                    if issues.items@.len() > 0 && listing_goes_on(issues.has_next, since, page) {
                        (
                            p,
                            RunModel {
                                stage: StageModel::Issues {
                                    repos,
                                    at,
                                    since,
                                    comments_since,
                                    page: (page + 1) as u32,
                                    found,
                                },
                                events: run.events,
                            },
                        )
                    } else {
                        (
                            with_issue_poll(p, repos[at], now),
                            RunModel { stage: comments, events: run.events + found },
                        )
                    }
                },
                _ => (p, RunModel { stage: comments, events: run.events }),
            }
        },
        StageModel::Comments { repos, at, since, page, found } => match reply {
            PollReply::Comments(comments) => {
                let found = found + crate::github::comment_events(repos[at], comments.items@);
                if comments.items@.len() > 0 && listing_goes_on(comments.has_next, since, page) {
                    (
                        p,
                        RunModel {
                            stage: StageModel::Comments {
                                repos,
                                at,
                                since,
                                page: (page + 1) as u32,
                                found,
                            },
                            events: run.events,
                        },
                    )
                } else {
                    let (p2, stage) = enter_repos(
                        with_comment_poll(p, repos[at], now),
                        repos,
                        at + 1,
                    );
                    (p2, RunModel { stage, events: run.events + found })
                }
            },
            _ => {
                let (p2, stage) = enter_repos(p, repos, at + 1);
                (p2, RunModel { stage, events: run.events })
            },
        },
        StageModel::Finished => (p, run),
    }
}

/// Notes that a repo's issues were polled.
pub open spec fn with_issue_poll(p: PollerModel, repo: Seq<char>, now: Timestamp) -> PollerModel {
    if p.repo_states.contains_key(repo) {
        PollerModel {
            repo_states: p.repo_states.insert(
                repo,
                RepoState { last_issue_poll: Some(now), ..p.repo_states[repo] },
            ),
            ..p
        }
    } else {
        p
    }
}

/// Notes that a repo's comments were polled.
pub open spec fn with_comment_poll(p: PollerModel, repo: Seq<char>, now: Timestamp) -> PollerModel {
    if p.repo_states.contains_key(repo) {
        PollerModel {
            repo_states: p.repo_states.insert(
                repo,
                RepoState { last_comment_poll: Some(now), ..p.repo_states[repo] },
            ),
            ..p
        }
    } else {
        p
    }
}

/// What a poll run asks GitHub for next.
pub open spec fn requested(run: RunModel) -> Option<RequestModel> {
    match run.stage {
        StageModel::Discover { orgs, at, page, .. } => Some(
            RequestModel::Repos { org: orgs[at], page },
        ),
        StageModel::Issues { repos, at, since, page, .. } => Some(
            RequestModel::Issues {
                owner: owner_part(repos[at]),
                repo: repo_part(repos[at]),
                since,
                page,
            },
        ),
        StageModel::Comments { repos, at, since, page, .. } => Some(
            RequestModel::Comments {
                owner: owner_part(repos[at]),
                repo: repo_part(repos[at]),
                since,
                page,
            },
        ),
        StageModel::Finished => None,
    }
}

/// The text that reports that the request of a poll run failed.
pub open spec fn failure_text(run: RunModel, cause: Seq<char>) -> Option<Seq<char>> {
    match run.stage {
        StageModel::Discover { orgs, at, .. } => Some(
            "GitHub API error "@ + "listing repos for "@ + orgs[at] + ": "@ + cause,
        ),
        StageModel::Issues { repos, at, .. } => Some(
            "GitHub API error "@ + "for "@ + repos[at] + ": "@ + cause,
        ),
        StageModel::Comments { repos, at, .. } => Some(
            "GitHub API error "@ + "for "@ + repos[at] + " comments"@ + ": "@ + cause,
        ),
        StageModel::Finished => None,
    }
}

/// Whether the places and page numbers of a poll run are those of a run under way: the place is
/// that of an org, or of a repo with a valid name, pages are counted from one, and no more than
/// three pages are asked for where nothing was fetched before.
pub open spec fn run_ok(run: RunModel) -> bool {
    match run.stage {
        StageModel::Discover { orgs, at, page, .. } => 0 <= at < orgs.len() && page >= 1,
        StageModel::Issues { repos, at, since, page, .. } => {
            &&& 0 <= at < repos.len()
            &&& is_repo_name(repos[at])
            &&& page >= 1
            &&& (since is None ==> page <= 3)
        },
        StageModel::Comments { repos, at, since, page, .. } => {
            &&& 0 <= at < repos.len()
            &&& is_repo_name(repos[at])
            &&& page >= 1
            &&& (since is None ==> page <= 3)
        },
        StageModel::Finished => true,
    }
}

/// The page that a poll run asks for next.
pub open spec fn page_of(run: RunModel) -> u32 {
    match run.stage {
        StageModel::Discover { page, .. } => page,
        StageModel::Issues { page, .. } => page,
        StageModel::Comments { page, .. } => page,
        StageModel::Finished => 0,
    }
}

proof fn owner_part_bounds(full: Seq<char>)
    ensures
        owner_part(full).len() <= full.len(),
        owner_part(full) == full.take(owner_part(full).len() as int),
        forall|i: int| 0 <= i < owner_part(full).len() ==> #[trigger] full[i] != '/',
        owner_part(full).len() < full.len() ==> full[owner_part(full).len() as int] == '/',
        is_repo_name(full) <==> owner_part(full).len() < full.len(),
    decreases full.len(),
{
    if full.len() > 0 && full[0] != '/' {
        owner_part_bounds(full.drop_first());
        let n = owner_part(full).len();
        assert(owner_part(full) =~= full.take(n as int));
        assert forall|i: int| 0 <= i < n implies #[trigger] full[i] != '/' by {
            if i > 0 {
                assert(full.drop_first()[i - 1] != '/');
            }
        }
        if n < full.len() {
            assert(full[n as int] == '/');
        }
    } else {
        assert(owner_part(full) =~= full.take(0));
    }
    let n = owner_part(full).len();
    if is_repo_name(full) {
        let i = choose|i: int| 0 <= i < full.len() && full[i] == '/';
        assert(n < full.len());
    }
}

/// A valid full name is its owner, a slash, and the repo's name.
pub proof fn full_name_parts(full: Seq<char>)
    requires
        is_repo_name(full),
    ensures
        full == owner_part(full) + "/"@ + repo_part(full),
        !owner_part(full).contains('/'),
{
    owner_part_bounds(full);
    reveal_strlit("/");
    assert(full =~= owner_part(full) + "/"@ + repo_part(full));
}

/// The owner and the name of a repo, where its full name has both.
pub fn split_name(full: &str) -> (r: Option<(String, String)>)
    ensures
        match r {
            Some((owner, repo)) => is_repo_name(full@) && owner@ == owner_part(full@) && repo@
                == repo_part(full@),
            None => !is_repo_name(full@),
        },
{
    let chars = chars_of(full);
    proof {
        owner_part_bounds(full@);
    }
    let mut i: usize = 0;
    while i < chars.len() && chars[i] != '/'
        invariant
            chars@ == full@,
            i <= chars.len(),
            i <= owner_part(full@).len(),
            owner_part(full@).len() <= full@.len(),
            forall|j: int| 0 <= j < owner_part(full@).len() ==> #[trigger] full@[j] != '/',
            owner_part(full@).len() < full@.len() ==> full@[owner_part(full@).len() as int] == '/',
        decreases chars.len() - i,
    {
        i = i + 1;
    }
    if i == chars.len() {
        return None;
    }
    let owner = full.substring_char(0, i);
    let repo = full.substring_char(i + 1, chars.len());
    assert(owner@ =~= owner_part(full@));
    assert(repo@ =~= repo_part(full@));
    Some((owner.to_owned(), repo.to_owned()))
}

proof fn texts_push(v: Seq<String>, x: String)
    ensures
        crate::order::texts(v.push(x)) == crate::order::texts(v).push(x@),
{
    assert(crate::order::texts(v.push(x)) =~= crate::order::texts(v).push(x@));
}

impl GitHubPoller {
    /// A poller that has polled nothing yet.
    pub fn new(subscriptions: Vec<RawSubscription>) -> (r: Self)
        ensures
            r@ == (PollerModel {
                subscriptions: crate::config::raw_subscription_models(subscriptions@),
                org_repos: Map::empty(),
                repo_states: Map::empty(),
                last_org_discovery: None,
            }),
    {
        let r = GitHubPoller {
            subscriptions,
            org_repos: StringHashMap::new(),
            repo_states: StringHashMap::new(),
            last_org_discovery: None,
        };
        assert(r@.org_repos =~= Map::empty());
        r
    }

    fn discovery_due(&self, now: Timestamp) -> (r: bool)
        ensures
            r == discovery_due(self@.last_org_discovery, now),
    {
        match self.last_org_discovery {
            Some(last) => now.minutes_since(&last) >= DISCOVERY_MINUTES,
            None => true,
        }
    }

    fn orgs(&self) -> (r: Vec<String>)
        ensures
            crate::order::texts(r@) == org_names(self@.subscriptions),
    {
        let ghost subs = self@.subscriptions;
        let mut orgs: Vec<String> = Vec::new();
        let mut i: usize = 0;
        assert(crate::order::texts(orgs@) =~= org_names(subs.take(0)));
        while i < self.subscriptions.len()
            invariant
                i <= self.subscriptions.len(),
                subs == self@.subscriptions,
                crate::order::texts(orgs@) == org_names(subs.take(i as int)),
            decreases self.subscriptions.len() - i,
        {
            let s = &self.subscriptions[i];
            assert(subs.take(i + 1).drop_last() =~= subs.take(i as int));
            assert(subs.take(i + 1).last() == s@);
            if str_eq(s.kind.as_str(), "org") {
                proof {
                    texts_push(orgs@, s.name);
                }
                orgs.push(s.name.clone());
            }
            i = i + 1;
        }
        assert(subs.take(i as int) =~= subs);
        orgs
    }

    /// All repos we should poll (org-discovered + individual subscriptions).
    pub fn all_repos(&self) -> (r: Vec<String>)
        ensures
            crate::order::texts(r@) == repo_names(self@),
    {
        let ghost subs = self@.subscriptions;
        let ghost orgs = self@.org_repos;
        let mut repos: Vec<String> = Vec::new();
        let mut i: usize = 0;
        proof {
            reveal_strlit("org");
            reveal_strlit("repo");
        }
        assert("org"@.len() != "repo"@.len());
        assert(crate::order::texts(repos@) =~= Seq::empty());
        assert(all_subscribed_repos(subs.take(0), orgs) =~= Seq::empty());
        while i < self.subscriptions.len()
            invariant
                i <= self.subscriptions.len(),
                subs == self@.subscriptions,
                orgs == self@.org_repos,
                "org"@ != "repo"@,
                crate::order::texts(repos@) == crate::order::ordered_set(
                    all_subscribed_repos(subs.take(i as int), orgs),
                ),
            decreases self.subscriptions.len() - i,
        {
            let s = &self.subscriptions[i];
            let ghost front = all_subscribed_repos(subs.take(i as int), orgs);
            assert(subs.take(i + 1).drop_last() =~= subs.take(i as int));
            assert(subs.take(i + 1).last() == s@);
            if str_eq(s.kind.as_str(), "org") {
                match self.org_repos.get(s.name.as_str()) {
                    Some(found) => {
                        let ghost names = crate::order::texts(found@);
                        assert(orgs[s.name@] == names);
                        assert(front + names.take(0) =~= front);
                        let mut j: usize = 0;
                        while j < found.len()
                            invariant
                                j <= found.len(),
                                names == crate::order::texts(found@),
                                crate::order::texts(repos@) == crate::order::ordered_set(
                                    front + names.take(j as int),
                                ),
                            decreases found.len() - j,
                        {
                            let ghost before = front + names.take(j as int);
                            let ghost after = front + names.take(j + 1);
                            assert(after.drop_last() =~= before);
                            assert(after.last() == found@[j as int]@);
                            insert_text(&mut repos, found[j].clone());
                            j = j + 1;
                        }
                        assert(names.take(j as int) =~= names);
                    },
                    None => {
                        assert(front + Seq::<Seq<char>>::empty() =~= front);
                    },
                }
            } else if str_eq(s.kind.as_str(), "repo") {
                assert((front + seq![s.name@]).drop_last() =~= front);
                assert((front + seq![s.name@]).last() == s.name@);
                insert_text(&mut repos, s.name.clone());
            } else {
                assert(front + Seq::<Seq<char>>::empty() =~= front);
            }
            i = i + 1;
        }
        assert(subs.take(i as int) =~= subs);
        repos
    }

    /// Goes on with the first repo from place `from` whose name is valid.
    fn enter_repos(&mut self, repos: Vec<String>, from: usize) -> (r: PollStage)
        ensures
            (final(self)@, r@) == enter_repos(
                old(self)@,
                crate::order::texts(repos@),
                from as int,
            ),
    {
        let ghost names = crate::order::texts(repos@);
        let mut at: usize = from;
        while at < repos.len()
            invariant
                names == crate::order::texts(repos@),
                self@ == old(self)@,
                enter_repos(self@, names, at as int) == enter_repos(
                    old(self)@,
                    names,
                    from as int,
                ),
            decreases repos.len() - at,
        {
            let full = &repos[at];
            assert(names[at as int] == full@);
            if split_name(full.as_str()).is_some() {
                let state = match self.repo_states.get(full.as_str()) {
                    Some(state) => *state,
                    None => RepoState { last_issue_poll: None, last_comment_poll: None },
                };
                self.repo_states.insert(full.clone(), state);
                let found: Vec<GhEvent> = Vec::new();
                assert(crate::wire::event_models(found@) =~= Seq::empty());
                return PollStage::Issues {
                    repos,
                    at,
                    since: state.last_issue_poll,
                    comments_since: state.last_comment_poll,
                    page: 1,
                    found,
                };
            }
            at = at + 1;
        }
        PollStage::Finished
    }

    /// Goes on with the org at place `at`, or with the repos where there is none.
    fn enter_org(&mut self, started: Timestamp, orgs: Vec<String>, at: usize) -> (r: PollStage)
        ensures
            (final(self)@, r@) == enter_org(
                old(self)@,
                started,
                crate::order::texts(orgs@),
                at as int,
            ),
    {
        if at < orgs.len() {
            let found: Vec<String> = Vec::new();
            assert(crate::order::texts(found@) =~= Seq::empty());
            return PollStage::Discover { started, orgs, at, page: 1, listed: found };
        }
        let repos = self.all_repos();
        self.last_org_discovery = Some(started);
        self.enter_repos(repos, 0)
    }

    /// Begins a poll of all subscribed repos for new issues, PRs, and comments.
    pub fn poll(&mut self, now: Timestamp) -> (r: PollRun)
        ensures
            (final(self)@, r@) == begun(old(self)@, now),
            run_ok(r@),
    {
        let stage = if self.discovery_due(now) {
            let orgs = self.orgs();
            self.enter_org(now, orgs, 0)
        } else {
            let repos = self.all_repos();
            self.enter_repos(repos, 0)
        };
        let events: Vec<GhEvent> = Vec::new();
        assert(crate::wire::event_models(events@) =~= Seq::empty());
        proof {
            begun_is_ok(old(self)@, now);
        }
        PollRun { stage, events }
    }
}

proof fn enter_repos_ok(p: PollerModel, repos: Seq<Seq<char>>, at: int)
    ensures
        forall|events: Seq<crate::wire::EventModel>|
            #[trigger] run_ok(RunModel { stage: enter_repos(p, repos, at).1, events }),
    decreases repos.len() - at,
{
    if 0 <= at < repos.len() && !is_repo_name(repos[at]) {
        enter_repos_ok(p, repos, at + 1);
    }
}

/// A poll run begins with its places and pages in bounds.
pub proof fn begun_is_ok(p: PollerModel, now: Timestamp)
    ensures
        run_ok(begun(p, now).1),
{
    enter_repos_ok(p, repo_names(p), 0);
    enter_repos_ok(
        PollerModel { last_org_discovery: Some(now), ..p },
        repo_names(p),
        0,
    );
}

/// A poll run keeps its places and pages in bounds.
pub proof fn advanced_is_ok(p: PollerModel, run: RunModel, reply: PollReply, now: Timestamp)
    requires
        run_ok(run),
        page_of(run) < u32::MAX,
    ensures
        run_ok(advanced(p, run, reply, now).1),
{
    match run.stage {
        StageModel::Discover { started, orgs, at, page, listed: found } => {
            let found2 = match reply {
                PollReply::Repos(repos) => found + known_names(repos.full_names@),
                _ => found,
            };
            let p1 = PollerModel { org_repos: p.org_repos.insert(orgs[at], found2), ..p };
            enter_repos_ok(
                PollerModel { last_org_discovery: Some(started), ..p1 },
                repo_names(p1),
                0,
            );
            enter_repos_ok(
                PollerModel { last_org_discovery: Some(started), ..p },
                repo_names(p),
                0,
            );
        },
        StageModel::Comments { repos, at, .. } => {
            enter_repos_ok(p, repos, at + 1);
            enter_repos_ok(with_comment_poll(p, repos[at], now), repos, at + 1);
        },
        _ => {},
    }
}

fn add_names(found: &mut Vec<String>, names: Vec<Option<String>>)
    ensures
        crate::order::texts(final(found)@) == crate::order::texts(old(found)@) + known_names(
            names@,
        ),
{
    let ghost before = crate::order::texts(found@);
    let mut i: usize = 0;
    assert(before + known_names(names@.take(0)) =~= before);
    while i < names.len()
        invariant
            i <= names.len(),
            crate::order::texts(found@) == before + known_names(names@.take(i as int)),
        decreases names.len() - i,
    {
        assert(names@.take(i + 1).drop_last() =~= names@.take(i as int));
        match &names[i] {
            Some(name) => {
                proof {
                    texts_push(found@, *name);
                }
                found.push(name.clone());
                assert(crate::order::texts(found@) =~= before + known_names(names@.take(i + 1)));
            },
            None => {},
        }
        i = i + 1;
    }
    assert(names@.take(i as int) =~= names@);
}

fn add_issues(found: &mut Vec<GhEvent>, repo: &String, page: &IssuePage)
    ensures
        crate::wire::event_models(final(found)@) == crate::wire::event_models(old(found)@)
            + crate::github::issue_events(repo@, page.items@),
{
    let ghost before = crate::wire::event_models(found@);
    let ghost events = crate::github::issue_events(repo@, page.items@);
    let mut i: usize = 0;
    assert(before + events.take(0) =~= before);
    while i < page.items.len()
        invariant
            i <= page.items.len(),
            events == crate::github::issue_events(repo@, page.items@),
            crate::wire::event_models(found@) == before + events.take(i as int),
        decreases page.items.len() - i,
    {
        let event = event_of_issue(repo, &page.items[i]);
        assert(event@ == events[i as int]);
        assert(events.take(i + 1) =~= events.take(i as int).push(event@));
        let ghost earlier = found@;
        found.push(event);
        assert(crate::wire::event_models(found@) =~= crate::wire::event_models(earlier).push(event@));
        assert(crate::wire::event_models(found@) =~= before + events.take(i + 1));
        i = i + 1;
    }
    assert(events.take(i as int) =~= events);
}

fn add_comments(found: &mut Vec<GhEvent>, repo: &String, page: &CommentPage)
    ensures
        crate::wire::event_models(final(found)@) == crate::wire::event_models(old(found)@)
            + crate::github::comment_events(repo@, page.items@),
{
    let ghost before = crate::wire::event_models(found@);
    let ghost events = crate::github::comment_events(repo@, page.items@);
    let mut i: usize = 0;
    assert(before + events.take(0) =~= before);
    while i < page.items.len()
        invariant
            i <= page.items.len(),
            events == crate::github::comment_events(repo@, page.items@),
            crate::wire::event_models(found@) == before + events.take(i as int),
        decreases page.items.len() - i,
    {
        let event = event_of_comment(repo, &page.items[i]);
        assert(event@ == events[i as int]);
        assert(events.take(i + 1) =~= events.take(i as int).push(event@));
        let ghost earlier = found@;
        found.push(event);
        assert(crate::wire::event_models(found@) =~= crate::wire::event_models(earlier).push(event@));
        assert(crate::wire::event_models(found@) =~= before + events.take(i + 1));
        i = i + 1;
    }
    assert(events.take(i as int) =~= events);
}

fn add_events(all: &mut Vec<GhEvent>, found: Vec<GhEvent>)
    ensures
        crate::wire::event_models(final(all)@) == crate::wire::event_models(old(all)@)
            + crate::wire::event_models(found@),
{
    let mut found = found;
    let ghost before = all@;
    let ghost added = found@;
    all.append(&mut found);
    assert(crate::wire::event_models(all@) =~= crate::wire::event_models(before)
        + crate::wire::event_models(added));
}

fn goes_on(has_next: bool, since: Option<Timestamp>, page: u32) -> (r: bool)
    ensures
        r == listing_goes_on(has_next, since, page),
{
    has_next && (since.is_some() || page < FIRST_FETCH_PAGES)
}

impl GitHubPoller {
    fn note_issue_poll(&mut self, repo: &String, now: Timestamp)
        ensures
            final(self)@ == with_issue_poll(old(self)@, repo@, now),
    {
        let state = match self.repo_states.get(repo.as_str()) {
            Some(state) => RepoState { last_issue_poll: Some(now), ..*state },
            None => {
                return ;
            },
        };
        self.repo_states.insert(repo.clone(), state);
    }

    fn note_comment_poll(&mut self, repo: &String, now: Timestamp)
        ensures
            final(self)@ == with_comment_poll(old(self)@, repo@, now),
    {
        let state = match self.repo_states.get(repo.as_str()) {
            Some(state) => RepoState { last_comment_poll: Some(now), ..*state },
            None => {
                return ;
            },
        };
        self.repo_states.insert(repo.clone(), state);
    }

    fn advance_discovery(
        &mut self,
        started: Timestamp,
        orgs: Vec<String>,
        at: usize,
        page: u32,
        found: Vec<String>,
        reply: PollReply,
    ) -> (r: PollStage)
        requires
            at < orgs.len(),
            page < u32::MAX,
        ensures
            (final(self)@, r@) == advance_discovery(
                old(self)@,
                started,
                crate::order::texts(orgs@),
                at as int,
                page,
                crate::order::texts(found@),
                reply,
            ),
    {
        match reply {
            PollReply::Repos(repos) => {
                let more = repos.full_names.len() > 0 && repos.has_next;
                let mut found = found;
                add_names(&mut found, repos.full_names);
                if more {
                    PollStage::Discover { started, orgs, at, page: page + 1, listed: found }
                } else {
                    let ghost before = self@;
                    let ghost names = crate::order::texts(found@);
                    self.org_repos.insert(orgs[at].clone(), found);
                    assert(self@.org_repos =~= before.org_repos.insert(orgs@[at as int]@, names));
                    self.enter_org(started, orgs, at + 1)
                }
            },
            _ => self.enter_org(started, orgs, at + 1),
        }
    }

    /// Takes in the reply to what a poll run asked for, at the given time.
    pub fn advance(&mut self, run: PollRun, reply: PollReply, now: Timestamp) -> (r: PollRun)
        requires
            run_ok(run@),
            page_of(run@) < u32::MAX,
        ensures
            (final(self)@, r@) == advanced(old(self)@, run@, reply, now),
            run_ok(r@),
    {
        proof {
            advanced_is_ok(self@, run@, reply, now);
        }
        let mut events = run.events;
        match run.stage {
            PollStage::Discover { started, orgs, at, page, listed: found } => {
                let stage = self.advance_discovery(started, orgs, at, page, found, reply);
                PollRun { stage, events }
            },
            PollStage::Issues { repos, at, since, comments_since, page, found } => {
                let none: Vec<GhEvent> = Vec::new();
                assert(crate::wire::event_models(none@) =~= Seq::empty());
                match reply {
                    PollReply::Issues(issues) => {
                        let mut found = found;
                        add_issues(&mut found, &repos[at], &issues);
                        if issues.items.len() > 0 && goes_on(issues.has_next, since, page) {
                            return PollRun {
                                stage: PollStage::Issues {
                                    repos,
                                    at,
                                    since,
                                    comments_since,
                                    page: page + 1,
                                    found,
                                },
                                events,
                            };
                        }
                        add_events(&mut events, found);
                        self.note_issue_poll(&repos[at], now);
                    },
                    _ => {},
                }
                PollRun {
                    stage: PollStage::Comments {
                        repos,
                        at,
                        since: comments_since,
                        page: 1,
                        found: none,
                    },
                    events,
                }
            },
            PollStage::Comments { repos, at, since, page, found } => {
                match reply {
                    PollReply::Comments(comments) => {
                        let mut found = found;
                        add_comments(&mut found, &repos[at], &comments);
                        if comments.items.len() > 0 && goes_on(comments.has_next, since, page) {
                            return PollRun {
                                stage: PollStage::Comments { repos, at, since, page: page + 1, found },
                                events,
                            };
                        }
                        add_events(&mut events, found);
                        self.note_comment_poll(&repos[at], now);
                    },
                    _ => {},
                }
                assert(at < repos.len());
                let stage = self.enter_repos(repos, at + 1);
                PollRun { stage, events }
            },
            PollStage::Finished => PollRun { stage: PollStage::Finished, events },
        }
    }
}

impl PollRun {
    /// What to ask GitHub for next, or nothing where the run is finished.
    pub fn request(&self) -> (r: Option<PollRequest>)
        requires
            run_ok(self@),
        ensures
            match r {
                Some(request) => requested(self@) == Some(request@),
                None => requested(self@) is None,
            },
    {
        match &self.stage {
            PollStage::Discover { orgs, at, page, .. } => Some(
                PollRequest::Repos { org: orgs[*at].clone(), page: *page },
            ),
            PollStage::Issues { repos, at, since, page, .. } => match split_name(
                repos[*at].as_str(),
            ) {
                Some((owner, repo)) => Some(
                    PollRequest::Issues { owner, repo, since: *since, page: *page },
                ),
                None => None,
            },
            PollStage::Comments { repos, at, since, page, .. } => match split_name(
                repos[*at].as_str(),
            ) {
                Some((owner, repo)) => Some(
                    PollRequest::Comments { owner, repo, since: *since, page: *page },
                ),
                None => None,
            },
            PollStage::Finished => None,
        }
    }

    /// The text that reports that the request failed.
    pub fn failure(&self, cause: &str) -> (r: Option<String>)
        requires
            run_ok(self@),
        ensures
            crate::wire::option_text(r) == failure_text(self@, cause@),
    {
        let mut text = "GitHub API error ".to_owned();
        match &self.stage {
            PollStage::Discover { orgs, at, .. } => {
                text.append("listing repos for ");
                text.append(orgs[*at].as_str());
            },
            PollStage::Issues { repos, at, .. } => {
                text.append("for ");
                text.append(repos[*at].as_str());
            },
            PollStage::Comments { repos, at, .. } => {
                text.append("for ");
                text.append(repos[*at].as_str());
                text.append(" comments");
            },
            PollStage::Finished => {
                return None;
            },
        }
        text.append(": ");
        text.append(cause);
        Some(text)
    }
}

/// The text that reports that no client for GitHub could be made.
pub fn client_error(cause: &str) -> (r: String)
    ensures
        r@ == "Failed to create GitHub client: "@ + cause@,
{
    let mut text = "Failed to create GitHub client: ".to_owned();
    text.append(cause);
    text
}

/// The repos that are polled stand in strictly ascending order, so none of them twice.
pub proof fn repo_names_ascend(p: PollerModel)
    ensures
        crate::order::strictly_ascending(repo_names(p)),
{
    crate::order::ordered_set_is_a_set(all_subscribed_repos(p.subscriptions, p.org_repos));
}

proof fn all_subscribed_repos_members(
    subscriptions: Seq<crate::config::RawSubscriptionModel>,
    org_repos: Map<Seq<char>, Seq<Seq<char>>>,
    name: Seq<char>,
)
    ensures
        all_subscribed_repos(subscriptions, org_repos).contains(name) <==> exists|i: int|
            0 <= i < subscriptions.len() && (#[trigger] subscribed_repos(
                subscriptions[i],
                org_repos,
            )).contains(name),
    decreases subscriptions.len(),
{
    if subscriptions.len() > 0 {
        let front = subscriptions.drop_last();
        let a = all_subscribed_repos(front, org_repos);
        let b = subscribed_repos(subscriptions.last(), org_repos);
        all_subscribed_repos_members(front, org_repos, name);
        if (a + b).contains(name) {
            let k = choose|k: int| 0 <= k < (a + b).len() && (a + b)[k] == name;
            if k < a.len() {
                assert(a[k] == name);
                let i = choose|i: int|
                    0 <= i < front.len() && (#[trigger] subscribed_repos(
                        front[i],
                        org_repos,
                    )).contains(name);
                assert(subscribed_repos(subscriptions[i], org_repos).contains(name));
            } else {
                assert(b[k - a.len()] == name);
                assert(subscribed_repos(
                    subscriptions[subscriptions.len() - 1],
                    org_repos,
                ).contains(name));
            }
        }
        if exists|i: int|
            0 <= i < subscriptions.len() && (#[trigger] subscribed_repos(
                subscriptions[i],
                org_repos,
            )).contains(name) {
            let i = choose|i: int|
                0 <= i < subscriptions.len() && (#[trigger] subscribed_repos(
                    subscriptions[i],
                    org_repos,
                )).contains(name);
            if i < front.len() {
                assert(subscribed_repos(front[i], org_repos).contains(name));
                let k = choose|k: int| 0 <= k < a.len() && a[k] == name;
                assert((a + b)[k] == name);
            } else {
                let k = choose|k: int| 0 <= k < b.len() && b[k] == name;
                assert((a + b)[a.len() + k] == name);
            }
        }
    }
}

/// A repo is polled exactly if a subscription stands for it.
pub proof fn repo_names_are_subscribed(p: PollerModel, name: Seq<char>)
    ensures
        repo_names(p).contains(name) <==> exists|i: int|
            0 <= i < p.subscriptions.len() && (#[trigger] subscribed_repos(
                p.subscriptions[i],
                p.org_repos,
            )).contains(name),
{
    crate::order::ordered_set_is_a_set(all_subscribed_repos(p.subscriptions, p.org_repos));
    all_subscribed_repos_members(p.subscriptions, p.org_repos, name);
}

/// The repos of orgs are not discovered again until ten minutes after the last discovery.
pub proof fn no_early_discovery(p: PollerModel, now: Timestamp)
    requires
        !discovery_due(p.last_org_discovery, now),
    ensures
        begun(p, now).1.stage !is Discover,
        begun(p, now).0.org_repos == p.org_repos,
        begun(p, now).0.last_org_discovery == p.last_org_discovery,
{
    enter_repos_frame(p, repo_names(p), 0);
}

/// What entering the repos leaves as it is: all but that a repo may get its initial state.
proof fn enter_repos_frame(p: PollerModel, repos: Seq<Seq<char>>, at: int)
    ensures
        enter_repos(p, repos, at).0.subscriptions == p.subscriptions,
        enter_repos(p, repos, at).0.org_repos == p.org_repos,
        enter_repos(p, repos, at).0.last_org_discovery == p.last_org_discovery,
        enter_repos(p, repos, at).1 !is Discover,
        enter_repos(p, repos, at).1 !is Comments,
        forall|r: Seq<char>| #[trigger]
            state_of(enter_repos(p, repos, at).0, r) == state_of(p, r),
        forall|r: Seq<char>| #[trigger]
            p.repo_states.contains_key(r) ==> enter_repos(p, repos, at).0.repo_states.contains_key(
                r,
            ),
    decreases repos.len() - at,
{
    if 0 <= at < repos.len() && !is_repo_name(repos[at]) {
        enter_repos_frame(p, repos, at + 1);
    }
}

/// No reply and no new poll run changes what is subscribed.
pub proof fn subscriptions_stay(p: PollerModel, run: RunModel, reply: PollReply, now: Timestamp)
    ensures
        begun(p, now).0.subscriptions == p.subscriptions,
        advanced(p, run, reply, now).0.subscriptions == p.subscriptions,
{
    begun_keeps_times(p, now);
    advanced_frame(p, run, reply, now);
}

/// Beginning a poll run changes no time of a last poll.
pub proof fn begun_keeps_times(p: PollerModel, now: Timestamp)
    ensures
        forall|r: Seq<char>| #[trigger] state_of(begun(p, now).0, r) == state_of(p, r),
        begun(p, now).0.subscriptions == p.subscriptions,
{
    enter_repos_frame(p, repo_names(p), 0);
    enter_repos_frame(
        PollerModel { last_org_discovery: Some(now), ..p },
        repo_names(p),
        0,
    );
    assert forall|r: Seq<char>| #[trigger] state_of(begun(p, now).0, r) == state_of(p, r) by {
        let q = PollerModel { last_org_discovery: Some(now), ..p };
        assert(state_of(q, r) == state_of(p, r));
        assert(state_of(enter_repos(q, repo_names(p), 0).0, r) == state_of(q, r));
        assert(state_of(enter_repos(p, repo_names(p), 0).0, r) == state_of(p, r));
    }
}

/// The full name of the repo whose issues or comments are listed.
pub open spec fn current_repo(run: RunModel) -> Option<Seq<char>> {
    match run.stage {
        StageModel::Issues { repos, at, .. } => Some(repos[at]),
        StageModel::Comments { repos, at, .. } => Some(repos[at]),
        _ => None,
    }
}

proof fn advanced_frame(p: PollerModel, run: RunModel, reply: PollReply, now: Timestamp)
    ensures
        advanced(p, run, reply, now).0.subscriptions == p.subscriptions,
        forall|r: Seq<char>|
            Some(r) != current_repo(run) || reply is Failed ==> #[trigger] state_of(
                advanced(p, run, reply, now).0,
                r,
            ) == state_of(p, r),
{
    match run.stage {
        StageModel::Discover { started, orgs, at, page, listed: found } => {
            let found2 = match reply {
                PollReply::Repos(repos) => found + known_names(repos.full_names@),
                _ => found,
            };
            let p1 = PollerModel { org_repos: p.org_repos.insert(orgs[at], found2), ..p };
            let q1 = PollerModel { last_org_discovery: Some(started), ..p1 };
            let q = PollerModel { last_org_discovery: Some(started), ..p };
            enter_repos_frame(q1, repo_names(p1), 0);
            enter_repos_frame(q, repo_names(p), 0);
            assert forall|r: Seq<char>| #[trigger]
                state_of(advanced(p, run, reply, now).0, r) == state_of(p, r) by {
                assert(state_of(p1, r) == state_of(p, r));
                assert(state_of(q1, r) == state_of(p, r));
                assert(state_of(q, r) == state_of(p, r));
                assert(state_of(enter_repos(q1, repo_names(p1), 0).0, r) == state_of(q1, r));
                assert(state_of(enter_repos(q, repo_names(p), 0).0, r) == state_of(q, r));
            }
        },
        StageModel::Comments { repos, at, .. } => {
            let q = with_comment_poll(p, repos[at], now);
            enter_repos_frame(p, repos, at + 1);
            enter_repos_frame(q, repos, at + 1);
            assert forall|r: Seq<char>|
                Some(r) != current_repo(run) || reply is Failed implies #[trigger] state_of(
                advanced(p, run, reply, now).0,
                r,
            ) == state_of(p, r) by {
                assert(r != repos[at] ==> state_of(q, r) == state_of(p, r));
                assert(state_of(enter_repos(q, repos, at + 1).0, r) == state_of(q, r));
                assert(state_of(enter_repos(p, repos, at + 1).0, r) == state_of(p, r));
            }
        },
        _ => {},
    }
}

/// A failed request changes no time of a last poll and brings no event: the next poll run asks
/// for the same again.
pub proof fn failure_changes_nothing(p: PollerModel, run: RunModel, now: Timestamp)
    ensures
        forall|r: Seq<char>| #[trigger]
            state_of(advanced(p, run, PollReply::Failed, now).0, r) == state_of(p, r),
        advanced(p, run, PollReply::Failed, now).0.org_repos == p.org_repos,
        advanced(p, run, PollReply::Failed, now).1.events == run.events,
{
    advanced_frame(p, run, PollReply::Failed, now);
    match run.stage {
        StageModel::Discover { started, .. } => {
            enter_repos_frame(
                PollerModel { last_org_discovery: Some(started), ..p },
                repo_names(p),
                0,
            );
        },
        StageModel::Comments { repos, at, .. } => {
            enter_repos_frame(p, repos, at + 1);
        },
        _ => {},
    }
}

/// A reply changes the times of the last polls of no repo but the one that it is about.
pub proof fn other_repos_stay(
    p: PollerModel,
    run: RunModel,
    reply: PollReply,
    now: Timestamp,
    other: Seq<char>,
)
    requires
        Some(other) != current_repo(run),
    ensures
        state_of(advanced(p, run, reply, now).0, other) == state_of(p, other),
{
    advanced_frame(p, run, reply, now);
}

/// No reply takes away an event that an earlier one brought.
pub proof fn events_only_grow(p: PollerModel, run: RunModel, reply: PollReply, now: Timestamp)
    ensures
        run.events.is_prefix_of(advanced(p, run, reply, now).1.events),
{
    let grown = advanced(p, run, reply, now).1.events;
    assert(grown.subrange(0, run.events.len() as int) =~= run.events);
}

/// Whether the repos that a run has come to are known to the poller.
pub open spec fn run_known(p: PollerModel, run: RunModel) -> bool {
    match run.stage {
        StageModel::Issues { repos, at, .. } => repos_known(p, repos, at),
        StageModel::Comments { repos, at, .. } => repos_known(p, repos, at),
        _ => true,
    }
}

/// Whether the poller has a state for each repo with a valid name up to a place.
pub open spec fn repos_known(p: PollerModel, repos: Seq<Seq<char>>, at: int) -> bool {
    forall|i: int|
        0 <= i <= at && i < repos.len() && is_repo_name(#[trigger] repos[i])
            ==> p.repo_states.contains_key(repos[i])
}

proof fn enter_repos_known(p: PollerModel, repos: Seq<Seq<char>>, at: int)
    requires
        0 <= at,
        repos_known(p, repos, at - 1),
    ensures
        forall|events: Seq<crate::wire::EventModel>| #[trigger]
            run_known(
                enter_repos(p, repos, at).0,
                RunModel { stage: enter_repos(p, repos, at).1, events },
            ),
    decreases repos.len() - at,
{
    if at < repos.len() && !is_repo_name(repos[at]) {
        enter_repos_known(p, repos, at + 1);
    }
}

/// The poller has a state for each repo that a run has come to, so a successful poll of its
/// issues or comments is always noted.
pub proof fn polled_repos_are_known(
    p: PollerModel,
    run: RunModel,
    reply: PollReply,
    now: Timestamp,
)
    requires
        run_ok(run),
        run_known(p, run),
    ensures
        run_known(begun(p, now).0, begun(p, now).1),
        run_known(advanced(p, run, reply, now).0, advanced(p, run, reply, now).1),
{
    enter_repos_known(p, repo_names(p), 0);
    enter_repos_known(
        PollerModel { last_org_discovery: Some(now), ..p },
        repo_names(p),
        0,
    );
    match run.stage {
        StageModel::Discover { started, orgs, at, page, listed: found } => {
            let found2 = match reply {
                PollReply::Repos(repos) => found + known_names(repos.full_names@),
                _ => found,
            };
            let p1 = PollerModel { org_repos: p.org_repos.insert(orgs[at], found2), ..p };
            enter_repos_known(
                PollerModel { last_org_discovery: Some(started), ..p1 },
                repo_names(p1),
                0,
            );
            enter_repos_known(
                PollerModel { last_org_discovery: Some(started), ..p },
                repo_names(p),
                0,
            );
        },
        StageModel::Comments { repos, at, .. } => {
            enter_repos_known(p, repos, at + 1);
            enter_repos_known(with_comment_poll(p, repos[at], now), repos, at + 1);
        },
        _ => {},
    }
}

/// Whether the issues of a repo are listed from their first page, since the time that the poller
/// noted for them.
pub open spec fn starts_repo(p: PollerModel, stage: StageModel) -> bool {
    match stage {
        StageModel::Issues { repos, at, since, comments_since, page, found } => {
            &&& since == state_of(p, repos[at]).last_issue_poll
            &&& comments_since == state_of(p, repos[at]).last_comment_poll
            &&& page == 1
            &&& found == Seq::<crate::wire::EventModel>::empty()
        },
        _ => false,
    }
}

/// A repo's issues and comments are asked for since the time that the poller noted at their last
/// successful poll.
pub proof fn polls_resume(p: PollerModel, repos: Seq<Seq<char>>, at: int)
    ensures
        ({
            let (p2, stage) = enter_repos(p, repos, at);
            stage is Finished || starts_repo(p, stage)
        }),
    decreases repos.len() - at,
{
    if 0 <= at < repos.len() && !is_repo_name(repos[at]) {
        polls_resume(p, repos, at + 1);
    }
}

/// A reply to a poll run, with the time at which it came.
pub struct Answer {
    pub reply: PollReply,
    pub at: Timestamp,
}

/// Takes in one reply after the other.
pub open spec fn fed(p: PollerModel, run: RunModel, answers: Seq<Answer>) -> (
    PollerModel,
    RunModel,
)
    decreases answers.len(),
{
    if answers.len() == 0 {
        (p, run)
    } else {
        let (p2, run2) = advanced(p, run, answers.first().reply, answers.first().at);
        fed(p2, run2, answers.drop_first())
    }
}

proof fn fed_add(p: PollerModel, run: RunModel, a: Seq<Answer>, b: Seq<Answer>)
    ensures
        fed(p, run, a + b) == ({
            let (p2, run2) = fed(p, run, a);
            fed(p2, run2, b)
        }),
    decreases a.len(),
{
    if a.len() == 0 {
        assert(a + b =~= b);
    } else {
        let (p2, run2) = advanced(p, run, a.first().reply, a.first().at);
        assert((a + b).drop_first() =~= a.drop_first() + b);
        fed_add(p2, run2, a.drop_first(), b);
    }
}

proof fn fed_one(p: PollerModel, run: RunModel, first: Answer, rest: Seq<Answer>)
    ensures
        fed(p, run, seq![first] + rest) == ({
            let (p2, run2) = advanced(p, run, first.reply, first.at);
            fed(p2, run2, rest)
        }),
{
    assert((seq![first] + rest).drop_first() =~= rest);
}

/// The answer that a request failed, if one did.
pub open spec fn failure_answer(failure: Option<Timestamp>) -> Seq<Answer> {
    match failure {
        Some(at) => seq![Answer { reply: PollReply::Failed, at }],
        None => Seq::empty(),
    }
}

/// What came back of listing a repo's issues: pages, each with the time at which it came, and
/// the time of a failure, if one ended the listing.
pub struct IssueListing {
    pub pages: Seq<(IssuePage, Timestamp)>,
    pub failure: Option<Timestamp>,
}

/// What came back of listing a repo's comments.
pub struct CommentListing {
    pub pages: Seq<(CommentPage, Timestamp)>,
    pub failure: Option<Timestamp>,
}

/// What came back of listing an org's repos.
pub struct RepoListing {
    pub pages: Seq<(RepoPage, Timestamp)>,
    pub failure: Option<Timestamp>,
}

/// What came back of polling a repo.
pub struct RepoPoll {
    pub issues: IssueListing,
    pub comments: CommentListing,
}

/// The issues on all of a listing's pages.
pub open spec fn issues_on(pages: Seq<(IssuePage, Timestamp)>) -> Seq<crate::github::IssueRecord>
    decreases pages.len(),
{
    if pages.len() == 0 {
        Seq::empty()
    } else {
        pages.first().0.items@ + issues_on(pages.drop_first())
    }
}

/// The comments on all of a listing's pages.
pub open spec fn comments_on(pages: Seq<(CommentPage, Timestamp)>) -> Seq<
    crate::github::CommentRecord,
>
    decreases pages.len(),
{
    if pages.len() == 0 {
        Seq::empty()
    } else {
        pages.first().0.items@ + comments_on(pages.drop_first())
    }
}

/// The full names on all of a listing's pages, as far as they are known.
pub open spec fn names_on(pages: Seq<(RepoPage, Timestamp)>) -> Seq<Seq<char>>
    decreases pages.len(),
{
    if pages.len() == 0 {
        Seq::empty()
    } else {
        known_names(pages.first().0.full_names@) + names_on(pages.drop_first())
    }
}

/// Whether this is what comes back of listing issues from a page number on: the listing goes on
/// behind each page but the last, and behind the last exactly if a failure followed it.
pub open spec fn issues_listed(
    l: IssueListing,
    since: Option<Timestamp>,
    page: int,
) -> bool {
    &&& l.failure is None ==> l.pages.len() > 0
    &&& page + l.pages.len() <= u32::MAX
    &&& forall|i: int|
        0 <= i < l.pages.len() ==> ((#[trigger] l.pages[i]).0.items@.len() > 0 && listing_goes_on(
            l.pages[i].0.has_next,
            since,
            (page + i) as u32,
        ) <==> i < l.pages.len() - 1 || l.failure is Some)
}

/// Whether this is what comes back of listing comments from a page number on.
pub open spec fn comments_listed(
    l: CommentListing,
    since: Option<Timestamp>,
    page: int,
) -> bool {
    &&& l.failure is None ==> l.pages.len() > 0
    &&& page + l.pages.len() <= u32::MAX
    &&& forall|i: int|
        0 <= i < l.pages.len() ==> ((#[trigger] l.pages[i]).0.items@.len() > 0 && listing_goes_on(
            l.pages[i].0.has_next,
            since,
            (page + i) as u32,
        ) <==> i < l.pages.len() - 1 || l.failure is Some)
}

/// Whether this is what comes back of listing an org's repos from a page number on.
pub open spec fn repos_listed(l: RepoListing, page: int) -> bool {
    &&& l.failure is None ==> l.pages.len() > 0
    &&& page + l.pages.len() <= u32::MAX
    &&& forall|i: int|
        0 <= i < l.pages.len() ==> ((#[trigger] l.pages[i]).0.full_names@.len() > 0
            && l.pages[i].0.has_next <==> i < l.pages.len() - 1 || l.failure is Some)
}

/// The answers that list issues.
pub open spec fn issue_answers(l: IssueListing) -> Seq<Answer> {
    l.pages.map_values(
        |x: (IssuePage, Timestamp)| Answer { reply: PollReply::Issues(x.0), at: x.1 },
    ) + failure_answer(l.failure)
}

/// The answers that list comments.
pub open spec fn comment_answers(l: CommentListing) -> Seq<Answer> {
    l.pages.map_values(
        |x: (CommentPage, Timestamp)| Answer { reply: PollReply::Comments(x.0), at: x.1 },
    ) + failure_answer(l.failure)
}

/// The answers that list an org's repos.
pub open spec fn org_answers(l: RepoListing) -> Seq<Answer> {
    l.pages.map_values(
        |x: (RepoPage, Timestamp)| Answer { reply: PollReply::Repos(x.0), at: x.1 },
    ) + failure_answer(l.failure)
}

/// The events that a listing of issues brings: none, where it failed.
pub open spec fn issues_brought(repo: Seq<char>, l: IssueListing) -> Seq<crate::wire::EventModel> {
    if l.failure is None {
        crate::github::issue_events(repo, issues_on(l.pages))
    } else {
        Seq::empty()
    }
}

/// The events that a listing of comments brings: none, where it failed.
pub open spec fn comments_brought(repo: Seq<char>, l: CommentListing) -> Seq<
    crate::wire::EventModel,
> {
    if l.failure is None {
        crate::github::comment_events(repo, comments_on(l.pages))
    } else {
        Seq::empty()
    }
}

/// A listing of issues brings the events for the issues on all of its pages, in their order, and
/// notes the time at which it ended. One that fails brings and notes nothing.
pub proof fn issue_listing(p: PollerModel, run: RunModel, l: IssueListing)
    requires
        run.stage is Issues,
        issues_listed(l, run.stage->Issues_since, run.stage->Issues_page as int),
    ensures
        match run.stage {
            StageModel::Issues { repos, at, since, comments_since, page, found } => fed(
                p,
                run,
                issue_answers(l),
            ) == (
                if l.failure is None {
                    with_issue_poll(p, repos[at], l.pages.last().1)
                } else {
                    p
                },
                RunModel {
                    stage: StageModel::Comments {
                        repos,
                        at,
                        since: comments_since,
                        page: 1,
                        found: Seq::empty(),
                    },
                    events: if l.failure is None {
                        run.events + found + crate::github::issue_events(
                            repos[at],
                            issues_on(l.pages),
                        )
                    } else {
                        run.events
                    },
                },
            ),
            _ => false,
        },
    decreases l.pages.len(),
{
    let answers = issue_answers(l);
    match run.stage {
        StageModel::Issues { repos, at, since, comments_since, page, found } => {
            if l.pages.len() == 0 {
                let failed = answers[0];
                assert(answers =~= seq![failed] + Seq::empty());
                fed_one(p, run, failed, Seq::empty());
            } else {
                let rest = IssueListing { pages: l.pages.drop_first(), ..l };
                let first = Answer { reply: PollReply::Issues(l.pages[0].0), at: l.pages[0].1 };
                assert(answers =~= seq![first] + issue_answers(rest));
                fed_one(p, run, first, issue_answers(rest));
                let name = repos[at];
                let own = crate::github::issue_events(name, l.pages[0].0.items@);
                let others = crate::github::issue_events(name, issues_on(rest.pages));
                assert(crate::github::issue_events(name, issues_on(l.pages)) =~= own + others);
                let (p2, run2) = advanced(p, run, first.reply, first.at);
                if l.pages.len() == 1 && l.failure is None {
                    assert(issue_answers(rest) =~= Seq::empty());
                    assert(issues_on(rest.pages) =~= Seq::empty());
                    assert(run.events + (found + own) =~= run.events + found + (own + others));
                } else {
                    assert forall|i: int| 0 <= i < rest.pages.len() implies ((
                    #[trigger] rest.pages[i]).0.items@.len() > 0 && listing_goes_on(
                        rest.pages[i].0.has_next,
                        since,
                        (page + 1 + i) as u32,
                    ) <==> i < rest.pages.len() - 1 || rest.failure is Some) by {
                        assert(rest.pages[i] == l.pages[i + 1]);
                    }
                    issue_listing(p2, run2, rest);
                    assert(run.events + (found + own) + others =~= run.events + found + (own
                        + others));
                }
            }
        },
        _ => {},
    }
}

/// A listing of comments brings the events for the comments on all of its pages, in their order,
/// and notes the time at which it ended. One that fails brings and notes nothing.
pub proof fn comment_listing(p: PollerModel, run: RunModel, l: CommentListing)
    requires
        run.stage is Comments,
        comments_listed(l, run.stage->Comments_since, run.stage->Comments_page as int),
    ensures
        match run.stage {
            StageModel::Comments { repos, at, since, page, found } => {
                let (p2, stage) = enter_repos(
                    if l.failure is None {
                        with_comment_poll(p, repos[at], l.pages.last().1)
                    } else {
                        p
                    },
                    repos,
                    at + 1,
                );
                fed(p, run, comment_answers(l)) == (
                    p2,
                    RunModel {
                        stage,
                        events: if l.failure is None {
                            run.events + found + crate::github::comment_events(
                                repos[at],
                                comments_on(l.pages),
                            )
                        } else {
                            run.events
                        },
                    },
                )
            },
            _ => false,
        },
    decreases l.pages.len(),
{
    let answers = comment_answers(l);
    match run.stage {
        StageModel::Comments { repos, at, since, page, found } => {
            if l.pages.len() == 0 {
                let failed = answers[0];
                assert(answers =~= seq![failed] + Seq::empty());
                fed_one(p, run, failed, Seq::empty());
            } else {
                let rest = CommentListing { pages: l.pages.drop_first(), ..l };
                let first = Answer { reply: PollReply::Comments(l.pages[0].0), at: l.pages[0].1 };
                assert(answers =~= seq![first] + comment_answers(rest));
                fed_one(p, run, first, comment_answers(rest));
                let name = repos[at];
                let own = crate::github::comment_events(name, l.pages[0].0.items@);
                let others = crate::github::comment_events(name, comments_on(rest.pages));
                assert(crate::github::comment_events(name, comments_on(l.pages)) =~= own + others);
                let (p2, run2) = advanced(p, run, first.reply, first.at);
                if l.pages.len() == 1 && l.failure is None {
                    assert(comment_answers(rest) =~= Seq::empty());
                    assert(comments_on(rest.pages) =~= Seq::empty());
                    assert(run.events + (found + own) =~= run.events + found + (own + others));
                } else {
                    assert forall|i: int| 0 <= i < rest.pages.len() implies ((
                    #[trigger] rest.pages[i]).0.items@.len() > 0 && listing_goes_on(
                        rest.pages[i].0.has_next,
                        since,
                        (page + 1 + i) as u32,
                    ) <==> i < rest.pages.len() - 1 || rest.failure is Some) by {
                        assert(rest.pages[i] == l.pages[i + 1]);
                    }
                    comment_listing(p2, run2, rest);
                    assert(run.events + (found + own) + others =~= run.events + found + (own
                        + others));
                }
            }
        },
        _ => {},
    }
}

/// A listing of an org's repos leaves the names on all of its pages as the org's repos, in place
/// of those known before. One that fails leaves the org's repos as they were.
pub proof fn repo_listing(p: PollerModel, run: RunModel, l: RepoListing)
    requires
        run.stage is Discover,
        repos_listed(l, run.stage->Discover_page as int),
    ensures
        match run.stage {
            StageModel::Discover { started, orgs, at, page, listed } => {
                let (p2, stage) = enter_org(
                    if l.failure is None {
                        PollerModel {
                            org_repos: p.org_repos.insert(orgs[at], listed + names_on(l.pages)),
                            ..p
                        }
                    } else {
                        p
                    },
                    started,
                    orgs,
                    at + 1,
                );
                fed(p, run, org_answers(l)) == (p2, RunModel { stage, events: run.events })
            },
            _ => false,
        },
    decreases l.pages.len(),
{
    let answers = org_answers(l);
    match run.stage {
        StageModel::Discover { started, orgs, at, page, listed } => {
            if l.pages.len() == 0 {
                let failed = answers[0];
                assert(answers =~= seq![failed] + Seq::empty());
                fed_one(p, run, failed, Seq::empty());
            } else {
                let rest = RepoListing { pages: l.pages.drop_first(), ..l };
                let first = Answer { reply: PollReply::Repos(l.pages[0].0), at: l.pages[0].1 };
                assert(answers =~= seq![first] + org_answers(rest));
                fed_one(p, run, first, org_answers(rest));
                let own = known_names(l.pages[0].0.full_names@);
                let (p2, run2) = advanced(p, run, first.reply, first.at);
                assert(listed + own + names_on(rest.pages) =~= listed + names_on(l.pages));
                if l.pages.len() == 1 && l.failure is None {
                    assert(org_answers(rest) =~= Seq::empty());
                    assert(names_on(rest.pages) =~= Seq::empty());
                    assert(listed + own =~= listed + names_on(l.pages));
                } else {
                    assert forall|i: int| 0 <= i < rest.pages.len() implies ((
                    #[trigger] rest.pages[i]).0.full_names@.len() > 0 && rest.pages[i].0.has_next
                        <==> i < rest.pages.len() - 1 || rest.failure is Some) by {
                        assert(rest.pages[i] == l.pages[i + 1]);
                    }
                    repo_listing(p2, run2, rest);
                }
            }
        },
        _ => {},
    }
}

/// The answers that poll a repo: its issues, then its comments.
pub open spec fn repo_answers(r: RepoPoll) -> Seq<Answer> {
    issue_answers(r.issues) + comment_answers(r.comments)
}

/// The events that polling a repo brings: those of its issues, then those of its comments.
pub open spec fn repo_events(repo: Seq<char>, r: RepoPoll) -> Seq<crate::wire::EventModel> {
    issues_brought(repo, r.issues) + comments_brought(repo, r.comments)
}

/// Whether this is what comes back of polling a repo in a state.
pub open spec fn repo_polled(state: RepoState, r: RepoPoll) -> bool {
    &&& issues_listed(r.issues, state.last_issue_poll, 1)
    &&& comments_listed(r.comments, state.last_comment_poll, 1)
}

/// The state of a repo after it was polled: the time at which each listing that succeeded ended.
pub open spec fn polled_state(state: RepoState, r: RepoPoll) -> RepoState {
    RepoState {
        last_issue_poll: if r.issues.failure is None {
            Some(r.issues.pages.last().1)
        } else {
            state.last_issue_poll
        },
        last_comment_poll: if r.comments.failure is None {
            Some(r.comments.pages.last().1)
        } else {
            state.last_comment_poll
        },
    }
}

/// The answers that poll repos, one after the other.
pub open spec fn poll_answers(polls: Seq<RepoPoll>) -> Seq<Answer>
    decreases polls.len(),
{
    if polls.len() == 0 {
        Seq::empty()
    } else {
        repo_answers(polls.first()) + poll_answers(polls.drop_first())
    }
}

/// The events that polling repos brings, one repo after the other.
pub open spec fn poll_events(names: Seq<Seq<char>>, polls: Seq<RepoPoll>) -> Seq<
    crate::wire::EventModel,
>
    decreases polls.len(),
{
    if polls.len() == 0 {
        Seq::empty()
    } else {
        repo_events(names.first(), polls.first()) + poll_events(
            names.drop_first(),
            polls.drop_first(),
        )
    }
}

/// The names that have the form owner/repo.
pub open spec fn valid_names(names: Seq<Seq<char>>) -> Seq<Seq<char>> {
    names.filter(|name: Seq<char>| is_repo_name(name))
}

/// Whether `q` knows what `p` did, and besides that what polling repos noted.
pub open spec fn noted(
    p: PollerModel,
    q: PollerModel,
    names: Seq<Seq<char>>,
    polls: Seq<RepoPoll>,
) -> bool {
    &&& q.subscriptions == p.subscriptions
    &&& q.org_repos == p.org_repos
    &&& q.last_org_discovery == p.last_org_discovery
    &&& forall|i: int|
        0 <= i < names.len() ==> state_of(q, #[trigger] names[i]) == polled_state(
            state_of(p, names[i]),
            polls[i],
        )
    &&& forall|other: Seq<char>|
        !names.contains(other) ==> #[trigger] state_of(q, other) == state_of(p, other)
}

/// Polls the repo at a place, whose name is valid.
proof fn one_repo(
    p: PollerModel,
    repos: Seq<Seq<char>>,
    at: int,
    r: RepoPoll,
    events: Seq<crate::wire::EventModel>,
) -> (q: PollerModel)
    requires
        0 <= at < repos.len(),
        is_repo_name(repos[at]),
        repo_polled(state_of(p, repos[at]), r),
    ensures
        fed(
            enter_repos(p, repos, at).0,
            RunModel { stage: enter_repos(p, repos, at).1, events },
            repo_answers(r),
        ) == (
            enter_repos(q, repos, at + 1).0,
            RunModel {
                stage: enter_repos(q, repos, at + 1).1,
                events: events + repo_events(repos[at], r),
            },
        ),
        noted(p, q, seq![repos[at]], seq![r]),
{
    let name = repos[at];
    let none = Seq::<crate::wire::EventModel>::empty();
    let (p1, stage) = enter_repos(p, repos, at);
    let run1 = RunModel { stage, events };
    fed_add(p1, run1, issue_answers(r.issues), comment_answers(r.comments));
    issue_listing(p1, run1, r.issues);
    let (p2, run2) = fed(p1, run1, issue_answers(r.issues));
    comment_listing(p2, run2, r.comments);
    let q = if r.comments.failure is None {
        with_comment_poll(p2, name, r.comments.pages.last().1)
    } else {
        p2
    };
    assert(events + none =~= events);
    assert(run2.events + none =~= run2.events);
    assert(run2.events =~= events + issues_brought(name, r.issues));
    let after = fed(p1, run1, repo_answers(r)).1.events;
    assert(after =~= run2.events + comments_brought(name, r.comments));
    assert(after =~= events + repo_events(name, r));
    assert forall|other: Seq<char>| !seq![name].contains(other) implies #[trigger] state_of(
        q,
        other,
    ) == state_of(p, other) by {
        if other == name {
            assert(seq![name][0] == other);
        }
    }
    q
}

/// Polls the repos from a place on.
proof fn repos_from(
    p: PollerModel,
    repos: Seq<Seq<char>>,
    at: int,
    polls: Seq<RepoPoll>,
    events: Seq<crate::wire::EventModel>,
)
    requires
        0 <= at <= repos.len(),
        repos.no_duplicates(),
        polls.len() == valid_names(repos.skip(at)).len(),
        forall|i: int|
            0 <= i < polls.len() ==> repo_polled(
                state_of(p, valid_names(repos.skip(at))[i]),
                #[trigger] polls[i],
            ),
    ensures
        ({
            let names = valid_names(repos.skip(at));
            let (p2, stage) = enter_repos(p, repos, at);
            let (q, run) = fed(p2, RunModel { stage, events }, poll_answers(polls));
            &&& run == (RunModel {
                stage: StageModel::Finished,
                events: events + poll_events(names, polls),
            })
            &&& noted(p, q, names, polls)
        }),
    decreases repos.len() - at,
{
    let valid = |name: Seq<char>| is_repo_name(name);
    let names = valid_names(repos.skip(at));
    if at == repos.len() {
        assert(repos.skip(at) =~= Seq::empty());
        reveal(Seq::filter);
        assert(names =~= Seq::empty());
        assert(events + poll_events(names, polls) =~= events);
    } else {
        let rest = repos.skip(at + 1);
        assert(repos.skip(at) =~= seq![repos[at]] + rest);
        rest.lemma_filter_prepend(repos[at], valid);
        let others = valid_names(rest);
        if !is_repo_name(repos[at]) {
            assert(names =~= others);
            repos_from(p, repos, at + 1, polls, events);
        } else {
            let r = polls[0];
            let later = polls.drop_first();
            assert(names =~= seq![repos[at]] + others);
            assert(names[0] == repos[at]);
            assert(names.drop_first() =~= others);
            let (p2, stage) = enter_repos(p, repos, at);
            let run = RunModel { stage, events };
            let q = one_repo(p, repos, at, r, events);
            assert(!others.contains(repos[at])) by {
                if others.contains(repos[at]) {
                    rest.lemma_filter_contains_rev(valid, repos[at]);
                    let j = choose|j: int| 0 <= j < rest.len() && rest[j] == repos[at];
                    assert(repos[at + 1 + j] == repos[at]);
                }
            }
            assert forall|i: int| 0 <= i < others.len() implies state_of(q, #[trigger] others[i])
                == state_of(p, others[i]) by {
                assert(others.contains(others[i]));
                assert(!seq![repos[at]].contains(others[i]));
            }
            assert forall|i: int| 0 <= i < later.len() implies repo_polled(
                state_of(q, others[i]),
                #[trigger] later[i],
            ) by {
                assert(names[i + 1] == others[i]);
                assert(later[i] == polls[i + 1]);
            }
            let so_far = events + repo_events(repos[at], r);
            repos_from(q, repos, at + 1, later, so_far);
            fed_add(p2, run, repo_answers(r), poll_answers(later));
            assert(so_far + poll_events(others, later) =~= events + poll_events(names, polls));
            let (end, _) = fed(p2, run, poll_answers(polls));
            assert forall|i: int| 0 <= i < names.len() implies state_of(end, #[trigger] names[i])
                == polled_state(state_of(p, names[i]), polls[i]) by {
                if i == 0 {
                    assert(seq![repos[at]][0] == names[0]);
                    assert(state_of(end, repos[at]) == state_of(q, repos[at]));
                } else {
                    assert(names[i] == others[i - 1]);
                    assert(polls[i] == later[i - 1]);
                }
            }
            assert forall|other: Seq<char>| !names.contains(other) implies #[trigger] state_of(
                end,
                other,
            ) == state_of(p, other) by {
                if others.contains(other) {
                    let j = choose|j: int| 0 <= j < others.len() && others[j] == other;
                    assert(names[j + 1] == other);
                }
                if seq![repos[at]].contains(other) {
                    assert(names[0] == other);
                }
                assert(state_of(end, other) == state_of(q, other));
            }
        }
    }
}

/// The answers that discover the repos of orgs, one org after the other.
pub open spec fn discovery_answers(listings: Seq<RepoListing>) -> Seq<Answer>
    decreases listings.len(),
{
    if listings.len() == 0 {
        Seq::empty()
    } else {
        org_answers(listings.first()) + discovery_answers(listings.drop_first())
    }
}

/// The repos of orgs after a discovery: those that were listed, of each org whose listing
/// succeeded.
pub open spec fn discovered(
    org_repos: Map<Seq<char>, Seq<Seq<char>>>,
    orgs: Seq<Seq<char>>,
    listings: Seq<RepoListing>,
) -> Map<Seq<char>, Seq<Seq<char>>>
    decreases listings.len(),
{
    if listings.len() == 0 {
        org_repos
    } else {
        discovered(
            if listings.first().failure is None {
                org_repos.insert(orgs.first(), names_on(listings.first().pages))
            } else {
                org_repos
            },
            orgs.drop_first(),
            listings.drop_first(),
        )
    }
}

/// Discovers the repos of the orgs from a place on.
proof fn orgs_from(
    p: PollerModel,
    started: Timestamp,
    orgs: Seq<Seq<char>>,
    at: int,
    listings: Seq<RepoListing>,
    events: Seq<crate::wire::EventModel>,
)
    requires
        0 <= at <= orgs.len(),
        listings.len() == orgs.len() - at,
        forall|i: int| 0 <= i < listings.len() ==> repos_listed(#[trigger] listings[i], 1),
    ensures
        ({
            let (p1, stage) = enter_org(p, started, orgs, at);
            let (p2, end) = end_discovery(
                PollerModel {
                    org_repos: discovered(p.org_repos, orgs.skip(at), listings),
                    ..p
                },
                started,
            );
            fed(p1, RunModel { stage, events }, discovery_answers(listings)) == (
                p2,
                RunModel { stage: end, events },
            )
        }),
    decreases orgs.len() - at,
{
    if at < orgs.len() {
        let (p1, stage) = enter_org(p, started, orgs, at);
        let run = RunModel { stage, events };
        let first = listings[0];
        let rest = listings.drop_first();
        fed_add(p1, run, org_answers(first), discovery_answers(rest));
        repo_listing(p1, run, first);
        assert(Seq::<Seq<char>>::empty() + names_on(first.pages) =~= names_on(first.pages));
        let next = if first.failure is None {
            PollerModel { org_repos: p.org_repos.insert(orgs[at], names_on(first.pages)), ..p }
        } else {
            p
        };
        assert forall|i: int| 0 <= i < rest.len() implies repos_listed(#[trigger] rest[i], 1) by {
            assert(rest[i] == listings[i + 1]);
        }
        orgs_from(next, started, orgs, at + 1, rest, events);
        assert(orgs.skip(at).drop_first() =~= orgs.skip(at + 1));
        assert(orgs.skip(at).first() == orgs[at]);
    }
}

/// What a poller knows after the discovery of a poll run, if one is due.
pub open spec fn after_discovery(
    p: PollerModel,
    now: Timestamp,
    listings: Seq<RepoListing>,
) -> PollerModel {
    if discovery_due(p.last_org_discovery, now) {
        PollerModel {
            org_repos: discovered(p.org_repos, org_names(p.subscriptions), listings),
            last_org_discovery: Some(now),
            ..p
        }
    } else {
        p
    }
}

/// The repos that a poll run polls.
pub open spec fn polled_names(
    p: PollerModel,
    now: Timestamp,
    listings: Seq<RepoListing>,
) -> Seq<Seq<char>> {
    valid_names(repo_names(after_discovery(p, now, listings)))
}

/// Whether this is what comes back of a whole poll run: a listing for each org, where discovery
/// is due, and then, for each repo in order, what comes back of polling it in its state.
pub open spec fn run_answered(
    p: PollerModel,
    now: Timestamp,
    listings: Seq<RepoListing>,
    polls: Seq<RepoPoll>,
) -> bool {
    &&& listings.len() == if discovery_due(p.last_org_discovery, now) {
        org_names(p.subscriptions).len()
    } else {
        0
    }
    &&& forall|i: int| 0 <= i < listings.len() ==> repos_listed(#[trigger] listings[i], 1)
    &&& polls.len() == polled_names(p, now, listings).len()
    &&& forall|i: int|
        0 <= i < polls.len() ==> repo_polled(
            state_of(p, polled_names(p, now, listings)[i]),
            #[trigger] polls[i],
        )
}

/// A whole poll run: what the poller knows, and how far the run has come, after everything that
/// comes back.
pub open spec fn whole_run(
    p: PollerModel,
    now: Timestamp,
    listings: Seq<RepoListing>,
    polls: Seq<RepoPoll>,
) -> (PollerModel, RunModel) {
    fed(begun(p, now).0, begun(p, now).1, discovery_answers(listings) + poll_answers(polls))
}

proof fn repo_names_differ(p: PollerModel)
    ensures
        repo_names(p).no_duplicates(),
{
    repo_names_ascend(p);
    let names = repo_names(p);
    assert forall|i: int, j: int| 0 <= i < names.len() && 0 <= j < names.len() && i
        != j implies names[i] != names[j] by {
        crate::text::lex_irreflexive(names[i]);
        if i < j {
            assert(crate::text::lex_less(names[i], names[j]));
        } else {
            assert(crate::text::lex_less(names[j], names[i]));
        }
    }
}

/// A whole poll run brings, over the repos in ascending order, the events of each repo's issues
/// and then those of its comments, of those listings that succeeded. It is finished then, and the
/// poller has noted the time at which each of them ended, and changed no other time.
pub proof fn poll_brings(
    p: PollerModel,
    now: Timestamp,
    listings: Seq<RepoListing>,
    polls: Seq<RepoPoll>,
)
    requires
        run_answered(p, now, listings, polls),
    ensures
        whole_run(p, now, listings, polls).1 == (RunModel {
            stage: StageModel::Finished,
            events: poll_events(polled_names(p, now, listings), polls),
        }),
        noted(
            after_discovery(p, now, listings),
            whole_run(p, now, listings, polls).0,
            polled_names(p, now, listings),
            polls,
        ),
{
    let none = Seq::<crate::wire::EventModel>::empty();
    let known = after_discovery(p, now, listings);
    let repos = repo_names(known);
    let names = polled_names(p, now, listings);
    let (p1, run1) = begun(p, now);
    fed_add(p1, run1, discovery_answers(listings), poll_answers(polls));
    if discovery_due(p.last_org_discovery, now) {
        let orgs = org_names(p.subscriptions);
        assert(orgs.skip(0) =~= orgs);
        orgs_from(p, now, orgs, 0, listings, none);
    }
    assert(repos.skip(0) =~= repos);
    repo_names_differ(known);
    assert forall|i: int| 0 <= i < polls.len() implies repo_polled(
        state_of(known, valid_names(repos.skip(0))[i]),
        #[trigger] polls[i],
    ) by {
        assert(state_of(known, names[i]) == state_of(p, names[i]));
    }
    repos_from(known, repos, 0, polls, none);
    assert(none + poll_events(names, polls) =~= poll_events(names, polls));
}

/// Whether a run asks for what it lists since the times that were noted at its beginning, and so
/// will for the repos ahead.
pub open spec fn resumes(start: PollerModel, p: PollerModel, run: RunModel) -> bool {
    match run.stage {
        StageModel::Discover { .. } => forall|r: Seq<char>| #[trigger]
            state_of(p, r) == state_of(start, r),
        StageModel::Issues { repos, at, since, comments_since, .. } => {
            &&& 0 <= at < repos.len()
            &&& repos.no_duplicates()
            &&& since == state_of(start, repos[at]).last_issue_poll
            &&& comments_since == state_of(start, repos[at]).last_comment_poll
            &&& forall|i: int|
                at <= i < repos.len() ==> state_of(p, #[trigger] repos[i]) == state_of(
                    start,
                    repos[i],
                )
        },
        StageModel::Comments { repos, at, since, .. } => {
            &&& 0 <= at < repos.len()
            &&& repos.no_duplicates()
            &&& since == state_of(start, repos[at]).last_comment_poll
            &&& forall|i: int|
                at < i < repos.len() ==> state_of(p, #[trigger] repos[i]) == state_of(
                    start,
                    repos[i],
                )
        },
        StageModel::Finished => true,
    }
}

proof fn enter_repos_resumes(
    start: PollerModel,
    p: PollerModel,
    repos: Seq<Seq<char>>,
    at: int,
)
    requires
        0 <= at,
        repos.no_duplicates(),
        forall|i: int|
            at <= i < repos.len() ==> state_of(p, #[trigger] repos[i]) == state_of(
                start,
                repos[i],
            ),
    ensures
        forall|events: Seq<crate::wire::EventModel>| #[trigger]
            resumes(
                start,
                enter_repos(p, repos, at).0,
                RunModel { stage: enter_repos(p, repos, at).1, events },
            ),
    decreases repos.len() - at,
{
    enter_repos_frame(p, repos, at);
    if at < repos.len() && !is_repo_name(repos[at]) {
        enter_repos_resumes(start, p, repos, at + 1);
    }
}

proof fn enter_org_resumes(
    start: PollerModel,
    p: PollerModel,
    started: Timestamp,
    orgs: Seq<Seq<char>>,
    at: int,
)
    requires
        forall|r: Seq<char>| #[trigger] state_of(p, r) == state_of(start, r),
    ensures
        forall|events: Seq<crate::wire::EventModel>| #[trigger]
            resumes(
                start,
                enter_org(p, started, orgs, at).0,
                RunModel { stage: enter_org(p, started, orgs, at).1, events },
            ),
{
    let q = PollerModel { last_org_discovery: Some(started), ..p };
    let repos = repo_names(p);
    repo_names_differ(p);
    assert forall|i: int| 0 <= i < repos.len() implies state_of(q, #[trigger] repos[i])
        == state_of(start, repos[i]) by {
        assert(state_of(p, repos[i]) == state_of(start, repos[i]));
    }
    enter_repos_resumes(start, q, repos, 0);
}

proof fn advanced_resumes(
    start: PollerModel,
    p: PollerModel,
    run: RunModel,
    reply: PollReply,
    now: Timestamp,
)
    requires
        resumes(start, p, run),
    ensures
        resumes(start, advanced(p, run, reply, now).0, advanced(p, run, reply, now).1),
{
    match run.stage {
        StageModel::Discover { started, orgs, at, page, listed } => {
            let found = match reply {
                PollReply::Repos(repos) => listed + known_names(repos.full_names@),
                _ => listed,
            };
            let p1 = PollerModel { org_repos: p.org_repos.insert(orgs[at], found), ..p };
            assert forall|r: Seq<char>| #[trigger] state_of(p1, r) == state_of(start, r) by {
                assert(state_of(p, r) == state_of(start, r));
            }
            enter_org_resumes(start, p1, started, orgs, at + 1);
            enter_org_resumes(start, p, started, orgs, at + 1);
        },
        StageModel::Issues { repos, at, .. } => {
            let q = with_issue_poll(p, repos[at], now);
            assert forall|i: int| at < i < repos.len() implies state_of(q, #[trigger] repos[i])
                == state_of(start, repos[i]) by {
                assert(repos[i] != repos[at]);
                assert(state_of(p, repos[i]) == state_of(start, repos[i]));
            }
        },
        StageModel::Comments { repos, at, .. } => {
            let q = with_comment_poll(p, repos[at], now);
            assert forall|i: int| at + 1 <= i < repos.len() implies state_of(q, #[trigger] repos[i])
                == state_of(start, repos[i]) by {
                assert(repos[i] != repos[at]);
                assert(state_of(p, repos[i]) == state_of(start, repos[i]));
            }
            enter_repos_resumes(start, p, repos, at + 1);
            enter_repos_resumes(start, q, repos, at + 1);
        },
        StageModel::Finished => {},
    }
}

proof fn fed_resumes(start: PollerModel, p: PollerModel, run: RunModel, answers: Seq<Answer>)
    requires
        resumes(start, p, run),
    ensures
        resumes(start, fed(p, run, answers).0, fed(p, run, answers).1),
    decreases answers.len(),
{
    if answers.len() > 0 {
        let first = answers.first();
        advanced_resumes(start, p, run, first.reply, first.at);
        let (p2, run2) = advanced(p, run, first.reply, first.at);
        fed_resumes(start, p2, run2, answers.drop_first());
    }
}

/// Whatever came back before, a run asks for a repo's issues and comments since the times that
/// the poller had noted for them when the run began.
pub proof fn requests_resume(p: PollerModel, now: Timestamp, answers: Seq<Answer>)
    ensures
        ({
            let run = fed(begun(p, now).0, begun(p, now).1, answers).1;
            match (requested(run), current_repo(run)) {
                (Some(RequestModel::Issues { since, .. }), Some(repo)) => since == state_of(
                    p,
                    repo,
                ).last_issue_poll,
                (Some(RequestModel::Comments { since, .. }), Some(repo)) => since == state_of(
                    p,
                    repo,
                ).last_comment_poll,
                _ => true,
            }
        }),
{
    let repos = repo_names(p);
    repo_names_differ(p);
    enter_repos_resumes(p, p, repos, 0);
    enter_org_resumes(p, p, now, org_names(p.subscriptions), 0);
    fed_resumes(p, begun(p, now).0, begun(p, now).1, answers);
}

/// A second poll run asks for a repo's issues and comments since the times at which the first run
/// had listed them; since the times before it, where that failed.
pub proof fn second_poll_resumes(
    p: PollerModel,
    now: Timestamp,
    listings: Seq<RepoListing>,
    polls: Seq<RepoPoll>,
    later: Timestamp,
    answers: Seq<Answer>,
    i: int,
)
    requires
        run_answered(p, now, listings, polls),
        0 <= i < polls.len(),
    ensures
        ({
            let name = polled_names(p, now, listings)[i];
            let q = whole_run(p, now, listings, polls).0;
            let run = fed(begun(q, later).0, begun(q, later).1, answers).1;
            current_repo(run) == Some(name) ==> match requested(run) {
                Some(RequestModel::Issues { since, .. }) => since == polled_state(
                    state_of(p, name),
                    polls[i],
                ).last_issue_poll,
                Some(RequestModel::Comments { since, .. }) => since == polled_state(
                    state_of(p, name),
                    polls[i],
                ).last_comment_poll,
                _ => false,
            }
        }),
{
    let names = polled_names(p, now, listings);
    let q = whole_run(p, now, listings, polls).0;
    poll_brings(p, now, listings, polls);
    requests_resume(q, later, answers);
    let known = after_discovery(p, now, listings);
    assert(state_of(known, names[i]) == state_of(p, names[i]));
    assert(state_of(q, names[i]) == polled_state(state_of(known, names[i]), polls[i]));
}

/// The time of a successful poll is noted for a repo that the poller knows: the time for its
/// issues and the time for its comments apart from each other.
pub proof fn success_is_noted(p: PollerModel, repo: Seq<char>, now: Timestamp)
    requires
        p.repo_states.contains_key(repo),
    ensures
        state_of(with_issue_poll(p, repo, now), repo) == (RepoState {
            last_issue_poll: Some(now),
            ..state_of(p, repo)
        }),
        state_of(with_comment_poll(p, repo, now), repo) == (RepoState {
            last_comment_poll: Some(now),
            ..state_of(p, repo)
        }),
{
}

/// No repo with a valid name is passed over: a run goes on with the next one, and is finished
/// only where there is none.
pub proof fn no_repo_is_skipped(p: PollerModel, repos: Seq<Seq<char>>, from: int)
    requires
        0 <= from,
    ensures
        match enter_repos(p, repos, from).1 {
            StageModel::Issues { repos: listed, at, .. } => {
                &&& listed == repos
                &&& from <= at < repos.len()
                &&& is_repo_name(repos[at])
                &&& forall|i: int| from <= i < at ==> !is_repo_name(#[trigger] repos[i])
            },
            StageModel::Finished => forall|i: int|
                from <= i < repos.len() ==> !is_repo_name(#[trigger] repos[i]),
            _ => false,
        },
    decreases repos.len() - from,
{
    if from < repos.len() && !is_repo_name(repos[from]) {
        no_repo_is_skipped(p, repos, from + 1);
    }
}

/// The repos of orgs count as discovered from the start of the discovery, whether or not it
/// succeeded for each of them.
pub proof fn discovery_is_noted(
    p: PollerModel,
    started: Timestamp,
    orgs: Seq<Seq<char>>,
    page: u32,
    listed: Seq<Seq<char>>,
    reply: PollReply,
)
    requires
        orgs.len() > 0,
        !(reply matches PollReply::Repos(repos) && repos.full_names@.len() > 0
            && repos.has_next),
    ensures
        advance_discovery(
            p,
            started,
            orgs,
            orgs.len() - 1,
            page,
            listed,
            reply,
        ).0.last_org_discovery == Some(started),
{
    let all = match reply {
        PollReply::Repos(repos) => listed + known_names(repos.full_names@),
        _ => listed,
    };
    let p1 = PollerModel { org_repos: p.org_repos.insert(orgs[orgs.len() - 1], all), ..p };
    enter_repos_frame(
        PollerModel { last_org_discovery: Some(started), ..p1 },
        repo_names(p1),
        0,
    );
    enter_repos_frame(
        PollerModel { last_org_discovery: Some(started), ..p },
        repo_names(p),
        0,
    );
}

/// Repos of orgs are discovered again exactly if at least six hundred seconds have passed, to the
/// nanosecond, since the last discovery; or if there was none. Here neither point in time lies in
/// a leap second.
pub proof fn discovery_goes_by_elapsed_time(last: Timestamp, now: Timestamp)
    requires
        last.subsec_nanos() < 1_000_000_000,
        now.subsec_nanos() < 1_000_000_000,
    ensures
        discovery_due(Some(last), now) <==> (now.seconds() - last.seconds()) * 1_000_000_000
            + now.subsec_nanos() - last.subsec_nanos() >= 600 * 1_000_000_000,
        discovery_due(None, now),
{
}

/// Leap seconds make a difference of no more than three seconds to when repos of orgs are
/// discovered again.
pub proof fn leap_seconds_matter_little(last: Timestamp, now: Timestamp)
    requires
        last.subsec_nanos() < 2_000_000_000,
        now.subsec_nanos() < 2_000_000_000,
    ensures
        now.seconds() - last.seconds() >= 603 ==> discovery_due(Some(last), now),
        now.seconds() - last.seconds() <= 597 ==> !discovery_due(Some(last), now),
{
}

/// Once a discovery is due, it stays due until one is made. Here no point in time lies in a leap
/// second.
pub proof fn discovery_stays_due(last: Option<Timestamp>, now: Timestamp, later: Timestamp)
    requires
        discovery_due(last, now),
        last matches Some(last) ==> last.subsec_nanos() < 1_000_000_000,
        now.subsec_nanos() < 1_000_000_000,
        later.subsec_nanos() < 1_000_000_000,
        now.seconds() < later.seconds() || (now.seconds() == later.seconds()
            && now.subsec_nanos() <= later.subsec_nanos()),
    ensures
        discovery_due(last, later),
{
}

/// The orgs are the names of the subscriptions of the kind "org", in their order, and no others.
pub proof fn orgs_are_org_subscriptions(
    subscriptions: Seq<crate::config::RawSubscriptionModel>,
    s: crate::config::RawSubscriptionModel,
)
    ensures
        org_names(Seq::empty()).len() == 0,
        s.kind == seq!['o', 'r', 'g'] ==> org_names(subscriptions.push(s)) == org_names(
            subscriptions,
        ).push(s.name),
        s.kind != seq!['o', 'r', 'g'] ==> org_names(subscriptions.push(s)) == org_names(
            subscriptions,
        ),
{
    reveal_strlit("org");
    assert("org"@ =~= seq!['o', 'r', 'g']);
    assert(subscriptions.push(s).drop_last() =~= subscriptions);
}

proof fn first_org(subscriptions: Seq<crate::config::RawSubscriptionModel>, at: int)
    requires
        0 <= at < subscriptions.len(),
        subscriptions[at].kind == "org"@,
        forall|i: int| 0 <= i < at ==> (#[trigger] subscriptions[i]).kind != "org"@,
    ensures
        org_names(subscriptions).len() > 0,
        org_names(subscriptions)[0] == subscriptions[at].name,
    decreases subscriptions.len(),
{
    let front = subscriptions.drop_last();
    if at < front.len() {
        first_org(front, at);
    } else {
        no_org(front);
    }
}

proof fn no_org(subscriptions: Seq<crate::config::RawSubscriptionModel>)
    requires
        forall|i: int|
            0 <= i < subscriptions.len() ==> (#[trigger] subscriptions[i]).kind != "org"@,
    ensures
        org_names(subscriptions).len() == 0,
    decreases subscriptions.len(),
{
    if subscriptions.len() > 0 {
        no_org(subscriptions.drop_last());
    }
}

/// A poll run of a poller that has never discovered repos, or did so at least ten minutes ago,
/// begins with a request for the first page of the repos of the first org that is subscribed.
/// Where neither point in time lies in a leap second, ten minutes are six hundred seconds; where
/// one may, six hundred and three are enough.
pub proof fn due_run_begins_with_discovery(p: PollerModel, now: Timestamp, at: int)
    requires
        0 <= at < p.subscriptions.len(),
        p.subscriptions[at].kind == seq!['o', 'r', 'g'],
        forall|i: int|
            0 <= i < at ==> (#[trigger] p.subscriptions[i]).kind != seq!['o', 'r', 'g'],
        p.last_org_discovery matches Some(last) ==> {
            ||| last.subsec_nanos() < 1_000_000_000 && now.subsec_nanos() < 1_000_000_000 && (
            now.seconds() - last.seconds()) * 1_000_000_000 + now.subsec_nanos()
                - last.subsec_nanos() >= 600 * 1_000_000_000
            ||| last.subsec_nanos() < 2_000_000_000 && now.subsec_nanos() < 2_000_000_000
                && now.seconds() - last.seconds() >= 603
        },
    ensures
        begun(p, now).1.stage is Discover,
        requested(begun(p, now).1) == Some(
            RequestModel::Repos { org: p.subscriptions[at].name, page: 1 },
        ),
{
    reveal_strlit("org");
    assert("org"@ =~= seq!['o', 'r', 'g']);
    first_org(p.subscriptions, at);
}

/// A poll run less than ten minutes after the last discovery, or without an org among the
/// subscriptions, discovers nothing: it asks for the issues of the first repo, or for nothing.
pub proof fn undue_run_begins_with_repos(p: PollerModel, now: Timestamp)
    requires
        (p.last_org_discovery matches Some(last) && last.subsec_nanos() < 1_000_000_000
            && now.subsec_nanos() < 1_000_000_000 && (now.seconds() - last.seconds())
            * 1_000_000_000 + now.subsec_nanos() - last.subsec_nanos() < 600 * 1_000_000_000)
            || (forall|i: int|
            0 <= i < p.subscriptions.len() ==> (#[trigger] p.subscriptions[i]).kind != seq![
                'o',
                'r',
                'g',
            ]),
    ensures
        begun(p, now).1.stage !is Discover,
        begun(p, now).1.stage !is Comments,
        begun(p, now).0.org_repos == p.org_repos,
        begun(p, now).1.stage matches StageModel::Issues { repos, at, page, .. }
            ==> is_repo_name(repos[at]) && page == 1 && (forall|i: int|
            0 <= i < at ==> !is_repo_name(#[trigger] repos[i])) && repos == repo_names(p),
{
    reveal_strlit("org");
    assert("org"@ =~= seq!['o', 'r', 'g']);
    let q = PollerModel { last_org_discovery: Some(now), ..p };
    enter_repos_frame(p, repo_names(p), 0);
    enter_repos_frame(q, repo_names(p), 0);
    no_repo_is_skipped(p, repo_names(p), 0);
    no_repo_is_skipped(q, repo_names(p), 0);
    polls_resume(p, repo_names(p), 0);
    polls_resume(q, repo_names(p), 0);
    if forall|i: int|
        0 <= i < p.subscriptions.len() ==> (#[trigger] p.subscriptions[i]).kind != "org"@ {
        no_org(p.subscriptions);
    }
}

/// A repo is polled exactly if it is subscribed by its own name, or was discovered for an org
/// that is subscribed.
pub proof fn polled_repos_are_wanted(p: PollerModel, name: Seq<char>)
    ensures
        repo_names(p).contains(name) <==> exists|i: int|
            0 <= i < p.subscriptions.len() && {
                let s = #[trigger] p.subscriptions[i];
                ||| s.kind == seq!['r', 'e', 'p', 'o'] && s.name == name
                ||| s.kind == seq!['o', 'r', 'g'] && p.org_repos.contains_key(s.name)
                    && p.org_repos[s.name].contains(name)
            },
        forall|i: int, j: int|
            0 <= i < j < repo_names(p).len() ==> crate::text::lex_less(
                #[trigger] repo_names(p)[i],
                #[trigger] repo_names(p)[j],
            ),
{
    reveal_strlit("org");
    reveal_strlit("repo");
    assert("org"@ =~= seq!['o', 'r', 'g']);
    assert("repo"@ =~= seq!['r', 'e', 'p', 'o']);
    assert("org"@.len() != "repo"@.len());
    repo_names_are_subscribed(p, name);
    crate::order::ordered_set_is_a_set(all_subscribed_repos(p.subscriptions, p.org_repos));
    assert forall|i: int| 0 <= i < p.subscriptions.len() implies ((
    #[trigger] subscribed_repos(p.subscriptions[i], p.org_repos)).contains(name) <==> {
        let s = p.subscriptions[i];
        ||| s.kind == "repo"@ && s.name == name
        ||| s.kind == "org"@ && p.org_repos.contains_key(s.name)
            && p.org_repos[s.name].contains(name)
    }) by {
        let s = p.subscriptions[i];
        assert(seq![s.name][0] == s.name);
    }
    if repo_names(p).contains(name) {
        let i = choose|i: int|
            0 <= i < p.subscriptions.len() && (#[trigger] subscribed_repos(
                p.subscriptions[i],
                p.org_repos,
            )).contains(name);
        let s = p.subscriptions[i];
        assert(s.kind == "repo"@ && s.name == name || s.kind == "org"@
            && p.org_repos.contains_key(s.name) && p.org_repos[s.name].contains(name));
    }
    if exists|i: int|
        0 <= i < p.subscriptions.len() && {
            let s = #[trigger] p.subscriptions[i];
            ||| s.kind == "repo"@ && s.name == name
            ||| s.kind == "org"@ && p.org_repos.contains_key(s.name)
                && p.org_repos[s.name].contains(name)
        } {
        let i = choose|i: int|
            0 <= i < p.subscriptions.len() && {
                let s = #[trigger] p.subscriptions[i];
                ||| s.kind == "repo"@ && s.name == name
                ||| s.kind == "org"@ && p.org_repos.contains_key(s.name)
                    && p.org_repos[s.name].contains(name)
            };
        assert(subscribed_repos(p.subscriptions[i], p.org_repos).contains(name));
    }
}

/// The known names of a page are its names in their order; a repo without a name is left out.
pub proof fn names_are_taken_in_order(names: Seq<Option<String>>, name: String)
    ensures
        known_names(Seq::empty()).len() == 0,
        known_names(names.push(Some(name))) == known_names(names).push(name@),
        known_names(names.push(None)) == known_names(names),
{
    assert(names.push(Some(name)).drop_last() =~= names);
    assert(names.push(None).drop_last() =~= names);
}

/// An owner and a repo, joined by a slash, are a valid name, and come apart as they were; a text
/// without a slash is no valid name.
pub proof fn joined_names_come_apart(owner: Seq<char>, repo: Seq<char>)
    requires
        forall|i: int| 0 <= i < owner.len() ==> #[trigger] owner[i] != '/',
    ensures
        is_repo_name(owner.push('/') + repo),
        owner_part(owner.push('/') + repo) == owner,
        repo_part(owner.push('/') + repo) == repo,
        !is_repo_name(owner),
    decreases owner.len(),
{
    let full = owner.push('/') + repo;
    let n = owner.len() as int;
    assert(full[n] == '/');
    owner_part_bounds(full);
    assert forall|i: int| 0 <= i < n implies #[trigger] full[i] != '/' by {
        assert(owner[i] != '/');
    }
    let k = owner_part(full).len() as int;
    if k > n {
        assert(full[n] != '/');
    }
    if k < n {
        assert(full[k] != '/');
    }
    assert(owner_part(full) =~= owner);
    assert(repo_part(full) =~= repo);
}

/// A run asks for the repo that it has come to: the owner and the name that are asked for, joined
/// by a slash, are the full name. It asks for the page that it has come to, since the time that
/// it lists from, and for issues or comments as it lists them.
pub proof fn requests_are_for_the_current_place(run: RunModel)
    ensures
        match run.stage {
            StageModel::Discover { orgs, at, page, .. } => requested(run) == Some(
                RequestModel::Repos { org: orgs[at], page },
            ),
            StageModel::Issues { repos, at, since, page, .. } => is_repo_name(repos[at])
                ==> (requested(run) matches Some(
                RequestModel::Issues { owner, repo, since: from, page: wanted },
            ) && owner.push('/') + repo == repos[at] && !owner.contains('/') && from == since
                && wanted == page),
            StageModel::Comments { repos, at, since, page, .. } => is_repo_name(repos[at])
                ==> (requested(run) matches Some(
                RequestModel::Comments { owner, repo, since: from, page: wanted },
            ) && owner.push('/') + repo == repos[at] && !owner.contains('/') && from == since
                && wanted == page),
            StageModel::Finished => requested(run) is None,
        },
{
    reveal_strlit("/");
    match current_repo(run) {
        Some(full) => {
            if is_repo_name(full) {
                full_name_parts(full);
                assert(owner_part(full) + "/"@ + repo_part(full) =~= owner_part(full).push('/')
                    + repo_part(full));
            }
        },
        None => {},
    }
}

/// A repo that the poller knows is in the state that it noted; of another nothing was polled.
pub proof fn states_are_the_noted_ones(p: PollerModel, repo: Seq<char>)
    ensures
        p.repo_states.contains_key(repo) ==> state_of(p, repo) == p.repo_states[repo],
        !p.repo_states.contains_key(repo) ==> state_of(p, repo).last_issue_poll is None
            && state_of(p, repo).last_comment_poll is None,
{
}

/// A page of issues goes into the listing. The listing goes on with the next page where the page
/// had an issue, there is a next one, and either the repo was polled before or fewer than three
/// pages were listed. Otherwise it ends: its events join those of the run, the time is noted, and
/// the comments of the same repo are listed from their first page.
pub proof fn a_page_of_issues_is_taken_in(
    p: PollerModel,
    run: RunModel,
    reply: IssuePage,
    now: Timestamp,
)
    requires
        run.stage is Issues,
        run.stage->Issues_page < u32::MAX,
    ensures
        ({
            let (q, after) = advanced(p, run, PollReply::Issues(reply), now);
            match run.stage {
                StageModel::Issues { repos, at, since, comments_since, page, found } => {
                    let all = found + crate::github::issue_events(repos[at], reply.items@);
                    if reply.items@.len() > 0 && reply.has_next && (since is Some || page + 1
                        <= 3) {
                        &&& q == p
                        &&& after.events == run.events
                        &&& after.stage == StageModel::Issues {
                            repos,
                            at,
                            since,
                            comments_since,
                            page: (page + 1) as u32,
                            found: all,
                        }
                    } else {
                        &&& after.events == run.events + all
                        &&& after.stage == StageModel::Comments {
                            repos,
                            at,
                            since: comments_since,
                            page: 1,
                            found: Seq::empty(),
                        }
                        &&& p.repo_states.contains_key(repos[at]) ==> state_of(
                            q,
                            repos[at],
                        ).last_issue_poll == Some(now) && state_of(q, repos[at]).last_comment_poll
                            == state_of(p, repos[at]).last_comment_poll
                    }
                },
                _ => false,
            }
        }),
{
}

/// A page of comments goes into the listing, which goes on or ends as one of issues does. Where
/// it ends, the run goes on behind the repo.
pub proof fn a_page_of_comments_is_taken_in(
    p: PollerModel,
    run: RunModel,
    reply: CommentPage,
    now: Timestamp,
)
    requires
        run.stage is Comments,
        run.stage->Comments_page < u32::MAX,
        run.stage->Comments_at >= 0,
    ensures
        ({
            let (q, after) = advanced(p, run, PollReply::Comments(reply), now);
            match run.stage {
                StageModel::Comments { repos, at, since, page, found } => {
                    let all = found + crate::github::comment_events(repos[at], reply.items@);
                    if reply.items@.len() > 0 && reply.has_next && (since is Some || page + 1
                        <= 3) {
                        &&& q == p
                        &&& after.events == run.events
                        &&& after.stage == StageModel::Comments {
                            repos,
                            at,
                            since,
                            page: (page + 1) as u32,
                            found: all,
                        }
                    } else {
                        &&& after.events == run.events + all
                        &&& p.repo_states.contains_key(repos[at]) ==> state_of(
                            q,
                            repos[at],
                        ).last_comment_poll == Some(now) && state_of(q, repos[at]).last_issue_poll
                            == state_of(p, repos[at]).last_issue_poll
                        &&& match after.stage {
                            StageModel::Issues { repos: others, at: next, .. } => others == repos
                                && at < next < repos.len() && (forall|i: int|
                                at < i < next ==> !is_repo_name(#[trigger] repos[i])),
                            StageModel::Finished => forall|i: int|
                                at < i < repos.len() ==> !is_repo_name(#[trigger] repos[i]),
                            _ => false,
                        }
                    }
                },
                _ => false,
            }
        }),
{
    match run.stage {
        StageModel::Comments { repos, at, .. } => {
            let q = with_comment_poll(p, repos[at], now);
            enter_repos_frame(q, repos, at + 1);
            no_repo_is_skipped(q, repos, at + 1);
            assert(state_of(enter_repos(q, repos, at + 1).0, repos[at]) == state_of(q, repos[at]));
        },
        _ => {},
    }
}

/// A page of an org's repos goes into the listing. The listing goes on with the next page where
/// the page had a repo and there is a next one. Otherwise what was listed becomes the org's repos,
/// and no other org's change.
pub proof fn a_page_of_repos_is_taken_in(
    p: PollerModel,
    run: RunModel,
    reply: RepoPage,
    now: Timestamp,
)
    requires
        run.stage is Discover,
        run.stage->Discover_page < u32::MAX,
    ensures
        ({
            let (q, after) = advanced(p, run, PollReply::Repos(reply), now);
            match run.stage {
                StageModel::Discover { started, orgs, at, page, listed } => {
                    let all = listed + known_names(reply.full_names@);
                    &&& after.events == run.events
                    &&& if reply.full_names@.len() > 0 && reply.has_next {
                        &&& q == p
                        &&& after.stage == StageModel::Discover {
                            started,
                            orgs,
                            at,
                            page: (page + 1) as u32,
                            listed: all,
                        }
                    } else {
                        &&& q.org_repos == p.org_repos.insert(orgs[at], all)
                        &&& at + 1 < orgs.len() ==> after.stage == StageModel::Discover {
                            started,
                            orgs,
                            at: at + 1,
                            page: 1,
                            listed: Seq::empty(),
                        }
                        &&& at + 1 >= orgs.len() ==> q.last_org_discovery == Some(started)
                            && match after.stage {
                            StageModel::Issues { repos, at: first, .. } => repos == repo_names(q)
                                && 0 <= first < repos.len() && is_repo_name(repos[first]) && (
                            forall|i: int| 0 <= i < first ==> !is_repo_name(#[trigger] repos[i])),
                            StageModel::Finished => forall|i: int|
                                0 <= i < repo_names(q).len() ==> !is_repo_name(
                                    #[trigger] repo_names(q)[i],
                                ),
                            _ => false,
                        }
                    }
                },
                _ => false,
            }
        }),
{
    match run.stage {
        StageModel::Discover { started, orgs, at, listed, .. } => {
            let p1 = PollerModel {
                org_repos: p.org_repos.insert(orgs[at], listed + known_names(reply.full_names@)),
                ..p
            };
            let p2 = PollerModel { last_org_discovery: Some(started), ..p1 };
            enter_repos_frame(p2, repo_names(p1), 0);
            no_repo_is_skipped(p2, repo_names(p1), 0);
        },
        _ => {},
    }
}

/// Where a request failed, the run goes on: behind an org with the next org or the repos, behind a
/// repo's issues with its comments, and behind its comments with the repos that follow.
pub proof fn a_failure_is_passed_over(p: PollerModel, run: RunModel, now: Timestamp)
    ensures
        ({
            let after = advanced(p, run, PollReply::Failed, now).1;
            match run.stage {
                StageModel::Discover { started, orgs, at, .. } => if at + 1 < orgs.len() {
                    after.stage == StageModel::Discover {
                        started,
                        orgs,
                        at: at + 1,
                        page: 1,
                        listed: Seq::empty(),
                    }
                } else {
                    match after.stage {
                        StageModel::Issues { repos, at: first, .. } => repos == repo_names(p) && 0
                            <= first < repos.len() && is_repo_name(repos[first]) && (forall|i: int|
                            0 <= i < first ==> !is_repo_name(#[trigger] repos[i])),
                        StageModel::Finished => forall|i: int|
                            0 <= i < repo_names(p).len() ==> !is_repo_name(
                                #[trigger] repo_names(p)[i],
                            ),
                        _ => false,
                    }
                },
                StageModel::Issues { repos, at, comments_since, .. } => after.stage
                    == StageModel::Comments {
                    repos,
                    at,
                    since: comments_since,
                    page: 1,
                    found: Seq::empty(),
                },
                StageModel::Comments { repos, at, .. } => at >= 0 ==> match after.stage {
                    StageModel::Issues { repos: others, at: next, .. } => others == repos && at
                        < next < repos.len() && (forall|i: int|
                        at < i < next ==> !is_repo_name(#[trigger] repos[i])),
                    StageModel::Finished => forall|i: int|
                        at < i < repos.len() ==> !is_repo_name(#[trigger] repos[i]),
                    _ => false,
                },
                StageModel::Finished => after.stage is Finished,
            }
        }),
{
    match run.stage {
        StageModel::Discover { started, .. } => {
            no_repo_is_skipped(
                PollerModel { last_org_discovery: Some(started), ..p },
                repo_names(p),
                0,
            );
        },
        StageModel::Comments { repos, at, .. } => {
            if at >= 0 {
                no_repo_is_skipped(p, repos, at + 1);
            }
        },
        _ => {},
    }
}

/// The report of a failed request names the org or the repo, and ends in the cause; it says
/// whether repos, issues or comments were asked for.
pub proof fn failures_name_what_failed(run: RunModel, cause: Seq<char>)
    ensures
        match run.stage {
            StageModel::Discover { orgs, at, .. } => failure_text(run, cause) == Some(
                "GitHub API error "@ + "listing repos for "@ + orgs[at] + (": "@ + cause),
            ),
            StageModel::Issues { repos, at, .. } => failure_text(run, cause) == Some(
                "GitHub API error "@ + "for "@ + repos[at] + (": "@ + cause),
            ),
            StageModel::Comments { repos, at, .. } => failure_text(run, cause) == Some(
                "GitHub API error "@ + "for "@ + repos[at] + (" comments"@ + ": "@ + cause),
            ),
            StageModel::Finished => failure_text(run, cause) is None,
        },
{
    match run.stage {
        StageModel::Discover { orgs, at, .. } => {
            assert("GitHub API error "@ + "listing repos for "@ + orgs[at] + ": "@ + cause
                =~= "GitHub API error "@ + "listing repos for "@ + orgs[at] + (": "@ + cause));
        },
        StageModel::Issues { repos, at, .. } => {
            assert("GitHub API error "@ + "for "@ + repos[at] + ": "@ + cause
                =~= "GitHub API error "@ + "for "@ + repos[at] + (": "@ + cause));
        },
        StageModel::Comments { repos, at, .. } => {
            assert("GitHub API error "@ + "for "@ + repos[at] + " comments"@ + ": "@ + cause
                =~= "GitHub API error "@ + "for "@ + repos[at] + (" comments"@ + ": "@ + cause));
        },
        StageModel::Finished => {},
    }
}

/// Leap seconds are counted as the clock shows them: one that the last discovery lay in, where the
/// time of day is later now; one that lies in the present, where it is earlier.
pub proof fn discovery_counts_leap_seconds(last: Timestamp, now: Timestamp)
    ensures
        ({
            let passed = (now.seconds() - last.seconds()) * 1_000_000_000 + now.subsec_nanos()
                - last.subsec_nanos();
            let later_in_day = now.seconds() % 86_400 > last.seconds() % 86_400;
            let earlier_in_day = now.seconds() % 86_400 < last.seconds() % 86_400;
            discovery_due(Some(last), now) <==> if later_in_day && last.subsec_nanos()
                >= 1_000_000_000 {
                passed + 1_000_000_000 >= 600 * 1_000_000_000
            } else if earlier_in_day && now.subsec_nanos() >= 1_000_000_000 {
                passed - 1_000_000_000 >= 600 * 1_000_000_000
            } else {
                passed >= 600 * 1_000_000_000
            }
        }),
{
}

/// A poll run notes the time of the discovery that it makes only when the discovery is done. Where
/// one is due but there is no org to ask for, it is done at once.
pub proof fn beginnings_note_no_discovery(p: PollerModel, now: Timestamp)
    ensures
        begun(p, now).1.stage is Discover ==> begun(p, now).0 == p,
        begun(p, now).1.stage matches StageModel::Discover { started, orgs, at, page, listed }
            ==> started == now && orgs == org_names(p.subscriptions) && at == 0 && page == 1
            && listed.len() == 0,
        begun(p, now).1.stage is Discover <==> discovery_due(p.last_org_discovery, now)
            && org_names(p.subscriptions).len() > 0,
        !discovery_due(p.last_org_discovery, now) ==> begun(p, now).0.last_org_discovery
            == p.last_org_discovery,
        discovery_due(p.last_org_discovery, now) && org_names(p.subscriptions).len() == 0
            ==> begun(p, now).0.last_org_discovery == Some(now),
        begun(p, now).1.events.len() == 0,
        begun(p, now).0.org_repos == p.org_repos,
{
    let q = PollerModel { last_org_discovery: Some(now), ..p };
    enter_repos_frame(p, repo_names(p), 0);
    enter_repos_frame(q, repo_names(p), 0);
}

/// A repo is listed from its first page on, with nothing found yet, and since the times that were
/// noted for it: none, where it was not polled before.
pub proof fn repos_are_listed_from_where_they_were_left(
    p: PollerModel,
    repos: Seq<Seq<char>>,
    from: int,
)
    ensures
        enter_repos(p, repos, from).1 matches StageModel::Issues {
            repos: listed,
            at,
            since,
            comments_since,
            page,
            found,
        } ==> {
            &&& page == 1
            &&& found.len() == 0
            &&& p.repo_states.contains_key(listed[at]) ==> since
                == p.repo_states[listed[at]].last_issue_poll && comments_since
                == p.repo_states[listed[at]].last_comment_poll
            &&& !p.repo_states.contains_key(listed[at]) ==> since is None && comments_since is None
            &&& enter_repos(p, repos, from).0.repo_states.contains_key(listed[at])
        },
    decreases repos.len() - from,
{
    if 0 <= from < repos.len() && !is_repo_name(repos[from]) {
        repos_are_listed_from_where_they_were_left(p, repos, from + 1);
    }
}

/// A reply to something else than what was asked for is passed over like a failure.
pub proof fn stray_replies_are_failures(
    p: PollerModel,
    run: RunModel,
    reply: PollReply,
    now: Timestamp,
)
    requires
        run.stage is Discover ==> reply !is Repos,
        run.stage is Issues ==> reply !is Issues,
        run.stage is Comments ==> reply !is Comments,
    ensures
        advanced(p, run, reply, now) == advanced(p, run, PollReply::Failed, now),
{
}

/// A new poller knows its subscriptions and nothing else, so that a discovery is due. The repos of
/// a poller are the subscribed ones, each of them once, in ascending order.
pub proof fn pollers_know_their_repos(
    subscriptions: Vec<RawSubscription>,
    made: GitHubPoller,
    poller: &GitHubPoller,
    repos: Vec<String>,
    name: Seq<char>,
    now: Timestamp,
)
    requires
        call_ensures(GitHubPoller::new, (subscriptions,), made),
        call_ensures(GitHubPoller::all_repos, (poller,), repos),
    ensures
        made@.subscriptions.len() == subscriptions@.len(),
        forall|i: int|
            0 <= i < subscriptions@.len() ==> (#[trigger] made@.subscriptions[i]).kind
                == subscriptions@[i].kind@ && made@.subscriptions[i].name
                == subscriptions@[i].name@,
        forall|org: Seq<char>| !#[trigger] made@.org_repos.contains_key(org),
        forall|repo: Seq<char>| !#[trigger] made@.repo_states.contains_key(repo),
        discovery_due(made@.last_org_discovery, now),
        (exists|k: int| 0 <= k < repos@.len() && (#[trigger] repos@[k])@ == name) <==> exists|
            i: int,
        |
            0 <= i < poller@.subscriptions.len() && {
                let s = #[trigger] poller@.subscriptions[i];
                ||| s.kind == seq!['r', 'e', 'p', 'o'] && s.name == name
                ||| s.kind == seq!['o', 'r', 'g'] && poller@.org_repos.contains_key(s.name)
                    && poller@.org_repos[s.name].contains(name)
            },
        forall|j: int, k: int|
            0 <= j < k < repos@.len() ==> crate::text::lex_less(
                (#[trigger] repos@[j])@,
                (#[trigger] repos@[k])@,
            ),
{
    polled_repos_are_wanted(poller@, name);
    let texts = crate::order::texts(repos@);
    assert(texts.len() == repos@.len());
    assert(forall|k: int| 0 <= k < repos@.len() ==> #[trigger] texts[k] == repos@[k]@);
    assert(texts == repo_names(poller@));
    if exists|k: int| 0 <= k < repos@.len() && (#[trigger] repos@[k])@ == name {
        let k = choose|k: int| 0 <= k < repos@.len() && (#[trigger] repos@[k])@ == name;
        assert(texts[k] == name);
        assert(repo_names(poller@).contains(name));
    }
    if repo_names(poller@).contains(name) {
        let k = choose|k: int| 0 <= k < texts.len() && texts[k] == name;
        assert(repos@[k]@ == name);
    }
    assert forall|j: int, k: int| 0 <= j < k < repos@.len() implies crate::text::lex_less(
        (#[trigger] repos@[j])@,
        (#[trigger] repos@[k])@,
    ) by {
        assert(texts[j] == repos@[j]@ && texts[k] == repos@[k]@);
        assert(crate::text::lex_less(repo_names(poller@)[j], repo_names(poller@)[k]));
    }
}

/// What is asked for next is what the run has come to, as it was written down: an org, or the
/// owner and the name of a repo, with the page and the time; nothing where the run is finished.
pub proof fn runs_ask_for_the_current_place(run: &PollRun, request: Option<PollRequest>)
    requires
        run_ok(run@),
        call_ensures(PollRun::request, (run,), request),
    ensures
        match run.stage {
            PollStage::Discover { orgs, at, page, .. } => request matches Some(
                PollRequest::Repos { org, page: wanted },
            ) && org@ == orgs@[at as int]@ && wanted == page,
            PollStage::Issues { repos, at, since, page, .. } => request matches Some(
                PollRequest::Issues { owner, repo, since: from, page: wanted },
            ) && owner@.push('/') + repo@ == repos@[at as int]@ && !owner@.contains('/') && from
                == since && wanted == page,
            PollStage::Comments { repos, at, since, page, .. } => request matches Some(
                PollRequest::Comments { owner, repo, since: from, page: wanted },
            ) && owner@.push('/') + repo@ == repos@[at as int]@ && !owner@.contains('/') && from
                == since && wanted == page,
            PollStage::Finished => request is None,
        },
{
    requests_are_for_the_current_place(run@);
}

/// A full name comes apart at its first slash; without one it has no owner.
pub proof fn names_come_apart_at_the_first_slash(full: &str, parts: Option<(String, String)>)
    requires
        call_ensures(split_name, (full,), parts),
    ensures
        parts is None <==> !full@.contains('/'),
        parts matches Some((owner, repo)) ==> owner@.push('/') + repo@ == full@ && !owner@.contains(
            '/',
        ),
{
    reveal_strlit("/");
    if full@.contains('/') {
        full_name_parts(full@);
        assert(owner_part(full@) + "/"@ + repo_part(full@) =~= owner_part(full@).push('/')
            + repo_part(full@));
    }
}

/// The report that no client could be made ends in the cause.
pub proof fn client_errors_end_in_the_cause(cause: &str, text: String)
    requires
        call_ensures(client_error, (cause,), text),
    ensures
        text@ == "Failed to create GitHub client: "@ + cause@,
{
}

/// While issues and comments are listed, nothing changes of what is known of orgs and when they
/// were asked for; while the repos of an org are listed, no time of a last poll changes, and no
/// other org's repos do. A run that is finished changes nothing.
pub proof fn listings_touch_what_they_list(
    p: PollerModel,
    run: RunModel,
    reply: PollReply,
    now: Timestamp,
    other: Seq<char>,
)
    ensures
        ({
            let (q, after) = advanced(p, run, reply, now);
            match run.stage {
                StageModel::Discover { orgs, at, .. } => {
                    &&& state_of(q, other) == state_of(p, other)
                    &&& other != orgs[at] ==> (q.org_repos.contains_key(other)
                        <==> p.org_repos.contains_key(other)) && (p.org_repos.contains_key(other)
                        ==> q.org_repos[other] == p.org_repos[other])
                    &&& after.stage is Discover ==> q.last_org_discovery == p.last_org_discovery
                    &&& after.events == run.events
                },
                StageModel::Finished => q == p && after == run,
                _ => {
                    &&& q.org_repos == p.org_repos
                    &&& q.last_org_discovery == p.last_org_discovery
                    &&& after.stage !is Discover
                },
            }
        }),
{
    advanced_frame(p, run, reply, now);
    match run.stage {
        StageModel::Discover { started, orgs, at, listed, .. } => {
            let all = match reply {
                PollReply::Repos(repos) => listed + known_names(repos.full_names@),
                _ => listed,
            };
            let p1 = PollerModel { org_repos: p.org_repos.insert(orgs[at], all), ..p };
            enter_repos_frame(
                PollerModel { last_org_discovery: Some(started), ..p1 },
                repo_names(p1),
                0,
            );
            enter_repos_frame(
                PollerModel { last_org_discovery: Some(started), ..p },
                repo_names(p),
                0,
            );
        },
        StageModel::Comments { repos, at, .. } => {
            enter_repos_frame(with_comment_poll(p, repos[at], now), repos, at + 1);
            enter_repos_frame(p, repos, at + 1);
        },
        _ => {},
    }
}

/// A failure is reported by the org or the repo that was asked for and by the cause; a finished run
/// has none to report.
pub proof fn runs_report_what_failed(run: &PollRun, cause: &str, text: Option<String>)
    requires
        run_ok(run@),
        call_ensures(PollRun::failure, (run, cause), text),
    ensures
        text is None <==> run.stage is Finished,
        run.stage matches PollStage::Discover { orgs, at, .. } ==> text->0@ == "GitHub API error "@
            + "listing repos for "@ + orgs@[at as int]@ + (": "@ + cause@),
        run.stage matches PollStage::Issues { repos, at, .. } ==> text->0@ == "GitHub API error "@
            + "for "@ + repos@[at as int]@ + (": "@ + cause@),
        run.stage matches PollStage::Comments { repos, at, .. } ==> text->0@ == "GitHub API error "@
            + "for "@ + repos@[at as int]@ + (" comments"@ + ": "@ + cause@),
{
    failures_name_what_failed(run@, cause@);
}

/// A run under way asks for pages from the first on, and where nothing was fetched of a repo
/// before, for three pages of its issues or comments at most.
pub proof fn first_fetches_are_short(run: RunModel)
    requires
        run_ok(run),
    ensures
        requested(run) matches Some(RequestModel::Repos { page, .. }) ==> page >= 1,
        requested(run) matches Some(RequestModel::Issues { since, page, .. }) ==> page >= 1 && (
        since is None ==> page <= 3),
        requested(run) matches Some(RequestModel::Comments { since, page, .. }) ==> page >= 1 && (
        since is None ==> page <= 3),
        requested(run) is None <==> run.stage is Finished,
{
}

} // verus!
