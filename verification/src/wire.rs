//! Wire types for sending between the backend and the frontend.

use crate::text::{decimal_text, quote};
use vstd::prelude::*;
use vstd::string::StringExecFns;

verus! {

/// What kind of GitHub event this represents.
#[derive(Clone, Copy, Debug, PartialEq, Eq, Structural)]
pub enum EventKind {
    NewIssue,
    NewPullRequest,
    NewComment,
    IssueStateChange,
    PRStateChange,
}

/// A number that stands for no event kind.
#[derive(Clone, Copy, Debug, PartialEq, Eq, Structural)]
pub struct UnknownEventKind {
    pub value: u32,
}

/// The error for a number that stands for no event kind, in words.
pub open spec fn unknown_kind_text(value: u32) -> Seq<char> {
    crate::text::decimal(value as nat) + " is not an event. Expected 0-4 inclusive."@
}

impl UnknownEventKind {
    /// What went wrong, in words.
    pub fn to_string(&self) -> (r: String)
        ensures
            r@ == unknown_kind_text(self.value),
    {
        let mut r = decimal_text(self.value as u64);
        r.append(" is not an event. Expected 0-4 inclusive.");
        r
    }
}

/// The number that stands for an event kind.
pub open spec fn kind_code(kind: EventKind) -> u32 {
    match kind {
        EventKind::NewIssue => 0,
        EventKind::NewPullRequest => 1,
        EventKind::NewComment => 2,
        EventKind::IssueStateChange => 3,
        EventKind::PRStateChange => 4,
    }
}

/// The event kind that a number stands for.
pub open spec fn kind_of_code(code: u32) -> Result<EventKind, UnknownEventKind> {
    if code == 0 {
        Ok(EventKind::NewIssue)
    } else if code == 1 {
        Ok(EventKind::NewPullRequest)
    } else if code == 2 {
        Ok(EventKind::NewComment)
    } else if code == 3 {
        Ok(EventKind::IssueStateChange)
    } else if code == 4 {
        Ok(EventKind::PRStateChange)
    } else {
        Err(UnknownEventKind { value: code })
    }
}

/// Every event kind is read back from its number.
pub proof fn kind_code_round_trip(kind: EventKind)
    ensures
        kind_of_code(kind_code(kind)) == Ok::<EventKind, UnknownEventKind>(kind),
{
}

/// A number that is read as a kind is the number of that kind; so a number stands for a kind
/// exactly if it is at most four.
pub proof fn kind_of_code_is_exact(code: u32)
    ensures
        kind_of_code(code) is Ok <==> code <= 4,
        kind_of_code(code) matches Ok(kind) ==> kind_code(kind) == code,
{
}

impl From<EventKind> for u32 {
    fn from(value: EventKind) -> (r: u32) {
        match value {
            EventKind::NewIssue => 0,
            EventKind::NewPullRequest => 1,
            EventKind::NewComment => 2,
            EventKind::IssueStateChange => 3,
            EventKind::PRStateChange => 4,
        }
    }
}

impl vstd::std_specs::convert::FromSpecImpl<EventKind> for u32 {
    open spec fn obeys_from_spec() -> bool {
        true
    }

    open spec fn from_spec(value: EventKind) -> u32 {
        kind_code(value)
    }
}

impl TryFrom<u32> for EventKind {
    type Error = UnknownEventKind;

    fn try_from(value: u32) -> (r: Result<Self, Self::Error>) {
        if value == 0 {
            Ok(EventKind::NewIssue)
        } else if value == 1 {
            Ok(EventKind::NewPullRequest)
        } else if value == 2 {
            Ok(EventKind::NewComment)
        } else if value == 3 {
            Ok(EventKind::IssueStateChange)
        } else if value == 4 {
            Ok(EventKind::PRStateChange)
        } else {
            Err(UnknownEventKind { value })
        }
    }
}

impl vstd::std_specs::convert::TryFromSpecImpl<u32> for EventKind {
    open spec fn obeys_try_from_spec() -> bool {
        true
    }

    open spec fn try_from_spec(value: u32) -> Result<Self, UnknownEventKind> {
        kind_of_code(value)
    }
}

/// The short label of an event kind.
pub open spec fn kind_label(kind: EventKind) -> Seq<char> {
    match kind {
        EventKind::NewIssue => "Issue"@,
        EventKind::NewPullRequest => "PR"@,
        EventKind::NewComment => "Comment"@,
        EventKind::IssueStateChange => "Issue"@,
        EventKind::PRStateChange => "PR"@,
    }
}

/// The style classes of an event kind's badge.
pub open spec fn kind_badge_class(kind: EventKind) -> Seq<char> {
    match kind {
        EventKind::NewIssue => "bg-success"@,
        EventKind::NewPullRequest => "bg-primary"@,
        EventKind::NewComment => "bg-secondary"@,
        EventKind::IssueStateChange => "bg-warning text-dark"@,
        EventKind::PRStateChange => "bg-info text-dark"@,
    }
}

impl EventKind {
    pub fn label(&self) -> (r: &'static str)
        ensures
            r@ == kind_label(*self),
    {
        match self {
            EventKind::NewIssue => "Issue",
            EventKind::NewPullRequest => "PR",
            EventKind::NewComment => "Comment",
            EventKind::IssueStateChange => "Issue",
            EventKind::PRStateChange => "PR",
        }
    }

    pub fn badge_class(&self) -> (r: &'static str)
        ensures
            r@ == kind_badge_class(*self),
    {
        match self {
            EventKind::NewIssue => "bg-success",
            EventKind::NewPullRequest => "bg-primary",
            EventKind::NewComment => "bg-secondary",
            EventKind::IssueStateChange => "bg-warning text-dark",
            EventKind::PRStateChange => "bg-info text-dark",
        }
    }

    /// The kind as it is shown: its label.
    pub fn to_string(&self) -> (r: String)
        ensures
            r@ == kind_label(*self),
    {
        self.label().to_owned()
    }
}

/// A GitHub event (issue, PR, or comment) normalized for display.
///
/// Version 1 of the events table schema.
#[derive(Debug, PartialEq)]
pub struct GhEventV1 {
    /// Unique identifier: "{owner}/{repo}#{number}" or
    /// "{owner}/{repo}#{number}:comment:{comment_id}"
    pub id: String,
    /// The number of the event's kind
    pub kind: u32,
    /// Repository full name, e.g. "zcash/librustzcash"
    pub repo: String,
    /// Issue or PR number
    pub number: u64,
    /// Issue or PR title
    pub title: String,
    /// GitHub username of the author
    pub author: String,
    /// Avatar URL for the author
    pub avatar_url: Option<String>,
    /// Markdown body text
    pub body: String,
    /// HTML URL to open in the browser
    pub url: String,
    /// ISO 8601 timestamp
    pub timestamp: String,
    /// Whether the user has read this event
    pub read: bool,
}

/// The current row type.
pub type GhEvent = GhEventV1;

/// The contents of an event, with every string as the sequence of its characters.
pub struct EventModel {
    pub id: Seq<char>,
    pub kind: u32,
    pub repo: Seq<char>,
    pub number: u64,
    pub title: Seq<char>,
    pub author: Seq<char>,
    pub avatar_url: Option<Seq<char>>,
    pub body: Seq<char>,
    pub url: Seq<char>,
    pub timestamp: Seq<char>,
    pub read: bool,
}

/// The characters of an optional string.
pub open spec fn option_text(s: Option<String>) -> Option<Seq<char>> {
    match s {
        Some(s) => Some(s@),
        None => None,
    }
}

impl View for GhEventV1 {
    type V = EventModel;

    open spec fn view(&self) -> EventModel {
        EventModel {
            id: self.id@,
            kind: self.kind,
            repo: self.repo@,
            number: self.number,
            title: self.title@,
            author: self.author@,
            avatar_url: option_text(self.avatar_url),
            body: self.body@,
            url: self.url@,
            timestamp: self.timestamp@,
            read: self.read,
        }
    }
}

/// The contents of each event of a list.
pub open spec fn event_models(events: Seq<GhEventV1>) -> Seq<EventModel> {
    events.map_values(|e: GhEventV1| e@)
}

pub(crate) fn clone_option(s: &Option<String>) -> (r: Option<String>)
    ensures
        r == *s,
{
    match s {
        Some(s) => Some(s.clone()),
        None => None,
    }
}

impl Clone for GhEventV1 {
    fn clone(&self) -> (r: Self)
        ensures
            r == *self,
    {
        GhEventV1 {
            id: self.id.clone(),
            kind: self.kind,
            repo: self.repo.clone(),
            number: self.number,
            title: self.title.clone(),
            author: self.author.clone(),
            avatar_url: clone_option(&self.avatar_url),
            body: self.body.clone(),
            url: self.url.clone(),
            timestamp: self.timestamp.clone(),
            read: self.read,
        }
    }
}

impl Default for GhEventV1 {
    fn default() -> (r: Self)
        ensures
            r@ == (EventModel {
                id: Seq::empty(),
                kind: 0,
                repo: Seq::empty(),
                number: 0,
                title: Seq::empty(),
                author: Seq::empty(),
                avatar_url: None,
                body: Seq::empty(),
                url: Seq::empty(),
                timestamp: Seq::empty(),
                read: false,
            }),
    {
        GhEventV1 {
            id: String::new(),
            kind: 0,
            repo: String::new(),
            number: 0,
            title: String::new(),
            author: String::new(),
            avatar_url: None,
            body: String::new(),
            url: String::new(),
            timestamp: String::new(),
            read: false,
        }
    }
}

impl GhEventV1 {
    /// The event's kind, where its number stands for one.
    pub fn kind(&self) -> (r: Result<EventKind, UnknownEventKind>)
        ensures
            r == kind_of_code(self.kind),
    {
        EventKind::try_from(self.kind)
    }
}

/// What kind of subscription this is.
#[derive(Clone, Copy, Debug, PartialEq, Eq, Structural)]
pub enum SubscriptionKind {
    Org,
    Repo,
}

/// The name of a subscription kind.
pub open spec fn subscription_kind_text(kind: SubscriptionKind) -> Seq<char> {
    match kind {
        SubscriptionKind::Org => "org"@,
        SubscriptionKind::Repo => "repo"@,
    }
}

impl SubscriptionKind {
    /// The kind as it is shown.
    pub fn to_string(&self) -> (r: String)
        ensures
            r@ == subscription_kind_text(*self),
    {
        match self {
            SubscriptionKind::Org => "org".to_owned(),
            SubscriptionKind::Repo => "repo".to_owned(),
        }
    }
}

/// A subscription to an org or repo.
#[derive(Debug, PartialEq)]
pub struct Subscription {
    pub kind: SubscriptionKind,
    /// Org name (e.g. "zcash") or repo full name (e.g. "schell/mogwai")
    pub name: String,
}

impl Clone for Subscription {
    fn clone(&self) -> (r: Self)
        ensures
            r == *self,
    {
        Subscription { kind: self.kind, name: self.name.clone() }
    }
}

/// The contents of a subscription.
pub struct SubscriptionModel {
    pub kind: SubscriptionKind,
    pub name: Seq<char>,
}

impl View for Subscription {
    type V = SubscriptionModel;

    open spec fn view(&self) -> SubscriptionModel {
        SubscriptionModel { kind: self.kind, name: self.name@ }
    }
}

/// The contents of each subscription of a list.
pub open spec fn subscription_models(subscriptions: Seq<Subscription>) -> Seq<SubscriptionModel> {
    subscriptions.map_values(|s: Subscription| s@)
}

/// App configuration as seen by the frontend.
#[derive(Clone, Debug, PartialEq)]
pub struct AppConfig {
    pub poll_interval_secs: u64,
    pub subscriptions: Vec<Subscription>,
    /// Whether a GitHub token is configured (never exposes the actual token).
    pub has_token: bool,
}

/// The contents of a configuration as seen by the frontend.
#[verifier::ext_equal]
pub struct AppConfigModel {
    pub poll_interval_secs: u64,
    pub subscriptions: Seq<SubscriptionModel>,
    pub has_token: bool,
}

impl View for AppConfig {
    type V = AppConfigModel;

    open spec fn view(&self) -> AppConfigModel {
        AppConfigModel {
            poll_interval_secs: self.poll_interval_secs,
            subscriptions: subscription_models(self.subscriptions@),
            has_token: self.has_token,
        }
    }
}

/// Status of a subscription (for the settings/status view).
#[derive(Clone, Debug, PartialEq)]
pub struct SubStatus {
    pub subscription: Subscription,
    /// Number of repos being monitored (for orgs, the discovered repo count).
    pub repo_count: u32,
    /// Last successful poll time (ISO 8601), if any.
    pub last_poll: Option<String>,
    /// Error message from last poll, if any.
    pub error: Option<String>,
}

/// Filter for querying events.
#[derive(Clone, Debug, PartialEq)]
pub struct EventFilter {
    /// Filter to a specific repo (e.g. "zcash/librustzcash").
    pub repo: Option<String>,
    /// If true, only return unread events.
    pub unread_only: bool,
    /// Maximum number of events to return.
    pub limit: Option<u32>,
}

impl Default for EventFilter {
    fn default() -> (r: Self)
        ensures
            r == (EventFilter { repo: None, unread_only: false, limit: None }),
    {
        EventFilter { repo: None, unread_only: false, limit: None }
    }
}

/// Commands sent from the frontend to the backend.
#[derive(Clone, Debug, PartialEq)]
pub enum Command {
    /// Fetch events matching a filter.
    GetEvents(EventFilter),
    /// Fetch a single event by ID.
    GetEvent { id: String },
    /// Fetch the current app configuration.
    GetConfig,
    /// Trigger an immediate GitHub poll cycle.
    PollNow,
    /// Mark a single event as read.
    MarkRead { id: String },
    /// Mark all events as read (optionally filtered by repo).
    MarkAllRead { repo: Option<String> },
}

/// Responses returned from the backend to the frontend (paired with a command).
#[derive(Clone, Debug, PartialEq)]
pub enum Response {
    Events(Vec<GhEvent>),
    Event(Option<GhEvent>),
    Config(AppConfig),
    /// The command was carried out; sent as "Ok".
    Done,
}

/// Unsolicited events pushed from the backend to the frontend.
#[derive(Clone, Copy, Debug, PartialEq, Eq, Structural)]
pub enum ServerEvent {
    /// New events were stored after a poll cycle.
    NewEvents { count: u32 },
}

/// Categorises errors so the frontend can branch on the kind.
#[derive(Clone, Copy, Debug, PartialEq, Eq, Structural)]
pub enum ErrorKind {
    /// GitHub API errors (auth, rate limit, network, etc.).
    GitHub,
    /// Configuration file I/O or parsing errors.
    Config,
    /// Database errors.
    Database,
    /// Serialisation / deserialisation errors on the invoke bridge.
    Serialization,
}

/// Application error sent across the invoke bridge.
#[derive(Clone, Debug, PartialEq)]
pub struct AppError {
    pub kind: ErrorKind,
    pub message: String,
}

impl AppError {
    pub fn new(kind: ErrorKind, message: String) -> (r: Self)
        ensures
            r == (AppError { kind, message }),
    {
        AppError { kind, message }
    }

    /// The error as it is shown: its message.
    pub fn to_string(&self) -> (r: String)
        ensures
            r@ == self.message@,
    {
        self.message.clone()
    }
}

/// The contents of an application error.
pub struct ErrorModel {
    pub kind: ErrorKind,
    pub message: Seq<char>,
}

impl View for AppError {
    type V = ErrorModel;

    open spec fn view(&self) -> ErrorModel {
        ErrorModel { kind: self.kind, message: self.message@ }
    }
}

/// Items between square brackets, with a comma and a space between neighbours.
pub open spec fn list_debug(items: Seq<Seq<char>>) -> Seq<char> {
    "["@ + comma_separated(items) + "]"@
}

/// Items one after the other, with a comma and a space between neighbours.
pub open spec fn comma_separated(items: Seq<Seq<char>>) -> Seq<char>
    decreases items.len(),
{
    if items.len() == 0 {
        Seq::empty()
    } else if items.len() == 1 {
        items[0]
    } else {
        comma_separated(items.drop_last()) + ", "@ + items.last()
    }
}

/// A truth value in debugging output.
pub open spec fn bool_debug(b: bool) -> Seq<char> {
    if b {
        "true"@
    } else {
        "false"@
    }
}

/// An event in debugging output, of which every text is in quotes already.
pub open spec fn quoted_event_debug(e: EventModel) -> Seq<char> {
    "GhEventV1 { id: "@ + e.id + ", kind: "@ + crate::text::decimal(e.kind as nat) + ", repo: "@
        + e.repo + ", number: "@ + crate::text::decimal(e.number as nat) + ", title: "@ + e.title
        + ", author: "@ + e.author + ", avatar_url: "@ + quoted_option_debug(e.avatar_url)
        + ", body: "@ + e.body + ", url: "@ + e.url + ", timestamp: "@ + e.timestamp + ", read: "@
        + bool_debug(e.read) + " }"@
}

/// An optional text in debugging output, which is in quotes already.
pub open spec fn quoted_option_debug(s: Option<Seq<char>>) -> Seq<char> {
    match s {
        Some(s) => "Some("@ + s + ")"@,
        None => "None"@,
    }
}

/// An event with every text in quotes.
pub open spec fn quoted_event(e: EventModel) -> EventModel {
    EventModel {
        id: crate::text::quoted(e.id),
        repo: crate::text::quoted(e.repo),
        title: crate::text::quoted(e.title),
        author: crate::text::quoted(e.author),
        avatar_url: match e.avatar_url {
            Some(url) => Some(crate::text::quoted(url)),
            None => None,
        },
        body: crate::text::quoted(e.body),
        url: crate::text::quoted(e.url),
        timestamp: crate::text::quoted(e.timestamp),
        ..e
    }
}

/// An event in debugging output.
pub open spec fn event_debug(e: EventModel) -> Seq<char> {
    quoted_event_debug(quoted_event(e))
}

/// A subscription in debugging output, whose name is in quotes already.
pub open spec fn quoted_subscription_debug(s: SubscriptionModel) -> Seq<char> {
    let kind = match s.kind {
        SubscriptionKind::Org => "Org"@,
        SubscriptionKind::Repo => "Repo"@,
    };
    "Subscription { kind: "@ + kind + ", name: "@ + s.name + " }"@
}

/// A subscription in debugging output.
pub open spec fn subscription_debug(s: SubscriptionModel) -> Seq<char> {
    quoted_subscription_debug(SubscriptionModel { name: crate::text::quoted(s.name), ..s })
}

/// A configuration in debugging output.
pub open spec fn config_debug(c: AppConfigModel) -> Seq<char> {
    "AppConfig { poll_interval_secs: "@ + crate::text::decimal(c.poll_interval_secs as nat)
        + ", subscriptions: "@ + list_debug(
        c.subscriptions.map_values(|s: SubscriptionModel| subscription_debug(s)),
    ) + ", has_token: "@ + bool_debug(c.has_token) + " }"@
}

/// A response in debugging output.
pub open spec fn response_debug(response: Response) -> Seq<char> {
    match response {
        Response::Events(events) => "Events("@ + list_debug(
            event_models(events@).map_values(|e: EventModel| event_debug(e)),
        ) + ")"@,
        Response::Event(Some(event)) => "Event(Some("@ + event_debug(event@) + "))"@,
        Response::Event(None) => "Event(None)"@,
        Response::Config(config) => "Config("@ + config_debug(config@) + ")"@,
        Response::Done => "Ok"@,
    }
}

fn bool_text(b: bool) -> (r: &'static str)
    ensures
        r@ == bool_debug(b),
{
    if b {
        "true"
    } else {
        "false"
    }
}

/// An event in debugging output, of which every text is in quotes already.
pub fn quoted_event_text(e: &GhEvent) -> (r: String)
    ensures
        r@ == quoted_event_debug(e@),
{
    let avatar_url = match &e.avatar_url {
        Some(url) => {
            let mut r = "Some(".to_owned();
            r.append(url.as_str());
            r.append(")");
            r
        },
        None => "None".to_owned(),
    };
    let mut r = "GhEventV1 { id: ".to_owned();
    r.append(e.id.as_str());
    r.append(", kind: ");
    r.append(decimal_text(e.kind as u64).as_str());
    r.append(", repo: ");
    r.append(e.repo.as_str());
    r.append(", number: ");
    r.append(decimal_text(e.number).as_str());
    r.append(", title: ");
    r.append(e.title.as_str());
    r.append(", author: ");
    r.append(e.author.as_str());
    r.append(", avatar_url: ");
    r.append(avatar_url.as_str());
    r.append(", body: ");
    r.append(e.body.as_str());
    r.append(", url: ");
    r.append(e.url.as_str());
    r.append(", timestamp: ");
    r.append(e.timestamp.as_str());
    r.append(", read: ");
    r.append(bool_text(e.read));
    r.append(" }");
    r
}

/// A subscription in debugging output, whose name is in quotes already.
pub fn quoted_subscription_text(s: &Subscription) -> (r: String)
    ensures
        r@ == quoted_subscription_debug(s@),
{
    let mut r = "Subscription { kind: ".to_owned();
    r.append(
        match s.kind {
            SubscriptionKind::Org => "Org",
            SubscriptionKind::Repo => "Repo",
        },
    );
    r.append(", name: ");
    r.append(s.name.as_str());
    r.append(" }");
    r
}

impl GhEventV1 {
    fn debug_text(&self) -> (r: String)
        ensures
            r@ == event_debug(self@),
    {
        let quoted = GhEventV1 {
            id: quote(self.id.as_str()),
            kind: self.kind,
            repo: quote(self.repo.as_str()),
            number: self.number,
            title: quote(self.title.as_str()),
            author: quote(self.author.as_str()),
            avatar_url: match &self.avatar_url {
                Some(url) => Some(quote(url.as_str())),
                None => None,
            },
            body: quote(self.body.as_str()),
            url: quote(self.url.as_str()),
            timestamp: quote(self.timestamp.as_str()),
            read: self.read,
        };
        quoted_event_text(&quoted)
    }
}

impl Subscription {
    fn debug_text(&self) -> (r: String)
        ensures
            r@ == subscription_debug(self@),
    {
        quoted_subscription_text(
            &Subscription { kind: self.kind, name: quote(self.name.as_str()) },
        )
    }
}

/// Extends a comma-separated run of items by one.
proof fn comma_separated_push(items: Seq<Seq<char>>, item: Seq<char>)
    ensures
        comma_separated(items.push(item)) == if items.len() == 0 {
            item
        } else {
            comma_separated(items) + ", "@ + item
        },
{
    assert(items.push(item).drop_last() =~= items);
}

impl AppConfig {
    fn debug_text(&self) -> (r: String)
        ensures
            r@ == config_debug(self@),
    {
        let ghost texts = self@.subscriptions.map_values(
            |s: SubscriptionModel| subscription_debug(s),
        );
        let mut list = String::new();
        let mut i: usize = 0;
        while i < self.subscriptions.len()
            invariant
                i <= self.subscriptions.len(),
                texts == self@.subscriptions.map_values(
                    |s: SubscriptionModel| subscription_debug(s),
                ),
                texts.len() == self.subscriptions.len(),
                list@ == comma_separated(texts.take(i as int)),
            decreases self.subscriptions.len() - i,
        {
            let item = self.subscriptions[i].debug_text();
            assert(item@ == texts[i as int]);
            proof {
                comma_separated_push(texts.take(i as int), item@);
                assert(texts.take(i + 1) =~= texts.take(i as int).push(item@));
            }
            if i > 0 {
                list.append(", ");
            } else {
                assert(list@ + item@ =~= item@);
            }
            list.append(item.as_str());
            i = i + 1;
        }
        assert(texts.take(i as int) =~= texts);
        let mut bracketed = "[".to_owned();
        bracketed.append(list.as_str());
        bracketed.append("]");
        let mut r = "AppConfig { poll_interval_secs: ".to_owned();
        r.append(decimal_text(self.poll_interval_secs).as_str());
        r.append(", subscriptions: ");
        r.append(bracketed.as_str());
        r.append(", has_token: ");
        r.append(bool_text(self.has_token));
        r.append(" }");
        r
    }
}

/// The error for a response of another variant than the expected one.
pub open spec fn unexpected_response(expected: Seq<char>, got: Response) -> ErrorModel {
    ErrorModel {
        kind: ErrorKind::Serialization,
        message: "expected Response::"@ + expected + ", got "@ + response_debug(got),
    }
}

impl Response {
    /// The response in debugging output.
    pub fn debug_text(&self) -> (r: String)
        ensures
            r@ == response_debug(*self),
    {
        match self {
            Response::Events(events) => {
                let ghost texts = event_models(events@).map_values(|e: EventModel| event_debug(e));
                let mut list = String::new();
                let mut i: usize = 0;
                while i < events.len()
                    invariant
                        i <= events.len(),
                        texts == event_models(events@).map_values(|e: EventModel| event_debug(e)),
                        texts.len() == events.len(),
                        list@ == comma_separated(texts.take(i as int)),
                    decreases events.len() - i,
                {
                    let item = events[i].debug_text();
                    assert(item@ == texts[i as int]);
                    proof {
                        comma_separated_push(texts.take(i as int), item@);
                        assert(texts.take(i + 1) =~= texts.take(i as int).push(item@));
                    }
                    if i > 0 {
                        list.append(", ");
                    } else {
                        assert(list@ + item@ =~= item@);
                    }
                    list.append(item.as_str());
                    i = i + 1;
                }
                assert(texts.take(i as int) =~= texts);
                let mut bracketed = "[".to_owned();
                bracketed.append(list.as_str());
                bracketed.append("]");
                let mut r = "Events(".to_owned();
                r.append(bracketed.as_str());
                r.append(")");
                r
            },
            Response::Event(event) => match event {
                Some(event) => {
                    let mut r = "Event(Some(".to_owned();
                    r.append(event.debug_text().as_str());
                    r.append("))");
                    r
                },
                None => "Event(None)".to_owned(),
            },
            Response::Config(config) => {
                let mut r = "Config(".to_owned();
                r.append(config.debug_text().as_str());
                r.append(")");
                r
            },
            Response::Done => "Ok".to_owned(),
        }
    }

    fn unexpected(&self, expected: &str) -> (r: AppError)
        ensures
            r@ == unexpected_response(expected@, *self),
    {
        let mut message = "expected Response::".to_owned();
        message.append(expected);
        message.append(", got ");
        message.append(self.debug_text().as_str());
        AppError::new(ErrorKind::Serialization, message)
    }

    /// Unwrap a `Response::Events`, or return an error.
    pub fn into_events(self) -> (r: Result<Vec<GhEvent>, AppError>)
        ensures
            match self {
                Response::Events(events) => r == Ok::<Vec<GhEvent>, AppError>(events),
                _ => r matches Err(e) && e@ == unexpected_response("Events"@, self),
            },
    {
        match self {
            Response::Events(events) => Ok(events),
            other => Err(other.unexpected("Events")),
        }
    }

    /// Unwrap a `Response::Event`, or return an error.
    pub fn into_event(self) -> (r: Result<Option<GhEvent>, AppError>)
        ensures
            match self {
                Response::Event(event) => r == Ok::<Option<GhEvent>, AppError>(event),
                _ => r matches Err(e) && e@ == unexpected_response("Event"@, self),
            },
    {
        match self {
            Response::Event(event) => Ok(event),
            other => Err(other.unexpected("Event")),
        }
    }

    /// Unwrap a `Response::Config`, or return an error.
    pub fn into_config(self) -> (r: Result<AppConfig, AppError>)
        ensures
            match self {
                Response::Config(config) => r == Ok::<AppConfig, AppError>(config),
                _ => r matches Err(e) && e@ == unexpected_response("Config"@, self),
            },
    {
        match self {
            Response::Config(config) => Ok(config),
            other => Err(other.unexpected("Config")),
        }
    }

    /// Unwrap a `Response::Done`, or return an error.
    pub fn into_ok(self) -> (r: Result<(), AppError>)
        ensures
            match self {
                Response::Done => r == Ok::<(), AppError>(()),
                _ => r matches Err(e) && e@ == unexpected_response("Ok"@, self),
            },
    {
        match self {
            Response::Done => Ok(()),
            other => Err(other.unexpected("Ok")),
        }
    }
}

/// Each event kind has its number, from zero on in the order in which they are declared.
pub proof fn kinds_are_numbered()
    ensures
        kind_code(EventKind::NewIssue) == 0,
        kind_code(EventKind::NewPullRequest) == 1,
        kind_code(EventKind::NewComment) == 2,
        kind_code(EventKind::IssueStateChange) == 3,
        kind_code(EventKind::PRStateChange) == 4,
{
}

/// A number that stands for no kind is told in the error, with the numbers that do.
pub proof fn unknown_kinds_are_told(code: u32)
    requires
        code > 4,
    ensures
        kind_of_code(code) matches Err(e) && e.value == code,
        unknown_kind_text(code) == crate::text::decimal(code as nat)
            + " is not an event. Expected 0-4 inclusive."@,
{
}

/// A kind's label says whether it is about an issue, a PR or a comment. No two kinds have the same
/// badge.
pub proof fn labels_and_badges_tell_kinds(a: EventKind, b: EventKind)
    ensures
        kind_label(a) == "Issue"@ <==> a is NewIssue || a is IssueStateChange,
        kind_label(a) == "PR"@ <==> a is NewPullRequest || a is PRStateChange,
        kind_label(a) == "Comment"@ <==> a is NewComment,
        kind_badge_class(a) == kind_badge_class(b) <==> a == b,
        kind_badge_class(EventKind::NewIssue) == "bg-success"@,
        kind_badge_class(EventKind::NewPullRequest) == "bg-primary"@,
        kind_badge_class(EventKind::NewComment) == "bg-secondary"@,
        kind_badge_class(EventKind::IssueStateChange) == "bg-warning"@ + " text-dark"@,
        kind_badge_class(EventKind::PRStateChange) == "bg-info"@ + " text-dark"@,
{
    reveal_strlit("Issue");
    reveal_strlit("PR");
    reveal_strlit("Comment");
    assert("Issue"@.len() == 5);
    assert("PR"@.len() == 2);
    assert("Comment"@.len() == 7);
    reveal_strlit("bg-success");
    reveal_strlit("bg-primary");
    reveal_strlit("bg-secondary");
    reveal_strlit("bg-warning text-dark");
    reveal_strlit("bg-info text-dark");
    reveal_strlit("bg-warning");
    reveal_strlit("bg-info");
    reveal_strlit(" text-dark");
    assert("bg-success"@[3] == 's' && "bg-success"@.len() == 10);
    assert("bg-primary"@[3] == 'p' && "bg-primary"@.len() == 10);
    assert("bg-secondary"@.len() == 12);
    assert("bg-warning text-dark"@ =~= "bg-warning"@ + " text-dark"@);
    assert("bg-info text-dark"@ =~= "bg-info"@ + " text-dark"@);
}

/// The name of a subscription kind is the one by which it is configured.
pub proof fn subscription_kinds_are_named(kind: SubscriptionKind)
    ensures
        subscription_kind_text(kind) == seq!['o', 'r', 'g'] <==> kind is Org,
        subscription_kind_text(kind) == seq!['r', 'e', 'p', 'o'] <==> kind is Repo,
{
    reveal_strlit("org");
    reveal_strlit("repo");
    assert("org"@ =~= seq!['o', 'r', 'g']);
    assert("repo"@ =~= seq!['r', 'e', 'p', 'o']);
    assert("org"@.len() == 3);
    assert("repo"@.len() == 4);
}

/// The contents of an event are its fields: two events of the same contents have the same number,
/// kind, state and texts.
pub proof fn events_are_their_fields(e: GhEvent)
    ensures
        e@.id == e.id@,
        e@.kind == e.kind,
        e@.repo == e.repo@,
        e@.number == e.number,
        e@.title == e.title@,
        e@.author == e.author@,
        e.avatar_url is Some <==> e@.avatar_url is Some,
        e.avatar_url matches Some(url) ==> e@.avatar_url == Some(url@),
        e@.body == e.body@,
        e@.url == e.url@,
        e@.timestamp == e.timestamp@,
        e@.read == e.read,
{
}

/// The contents of a configuration are its fields, with each subscription in its place.
pub proof fn configurations_are_their_fields(c: AppConfig)
    ensures
        c@.poll_interval_secs == c.poll_interval_secs,
        c@.has_token == c.has_token,
        c@.subscriptions.len() == c.subscriptions@.len(),
        forall|i: int|
            0 <= i < c.subscriptions@.len() ==> (#[trigger] c@.subscriptions[i]).kind
                == c.subscriptions@[i].kind && c@.subscriptions[i].name
                == c.subscriptions@[i].name@,
{
}

proof fn ends_in(before: Seq<char>, a: Seq<char>, b: Seq<char>, c: Seq<char>)
    ensures
        crate::text::occurs_in(a + b + c, before + a + b + c),
{
    assert(before + (a + b + c) + Seq::empty() =~= before + a + b + c) by {
        assert(before + (a + b) =~= before + a + b);
        assert(before + (a + b + c) =~= before + (a + b) + c);
    }
    crate::text::occurs_between(before, a + b + c, Seq::empty());
}

proof fn occurrences_stay(s: Seq<char>, t: Seq<char>)
    ensures
        forall|x: Seq<char>|
            crate::text::occurs_in(x, s) ==> #[trigger] crate::text::occurs_in(x, s + t),
{
    assert forall|x: Seq<char>| crate::text::occurs_in(x, s) implies #[trigger]
        crate::text::occurs_in(x, s + t) by {
        crate::text::occurs_longer(x, s, t);
    }
}

/// An event in debugging output shows each of its fields behind the field's name, one behind the
/// other, with its texts as they are.
pub proof fn debug_shows_every_field(e: EventModel)
    ensures
        crate::text::occurs_in(
            "GhEventV1 { id: "@ + e.id + ", kind: "@,
            quoted_event_debug(e),
        ),
        crate::text::occurs_in(
            ", kind: "@ + crate::text::decimal(e.kind as nat) + ", repo: "@,
            quoted_event_debug(e),
        ),
        crate::text::occurs_in(
            ", repo: "@ + e.repo + ", number: "@,
            quoted_event_debug(e),
        ),
        crate::text::occurs_in(
            ", number: "@ + crate::text::decimal(e.number as nat) + ", title: "@,
            quoted_event_debug(e),
        ),
        crate::text::occurs_in(
            ", title: "@ + e.title + ", author: "@,
            quoted_event_debug(e),
        ),
        crate::text::occurs_in(
            ", author: "@ + e.author + ", avatar_url: "@,
            quoted_event_debug(e),
        ),
        crate::text::occurs_in(
            ", avatar_url: "@ + quoted_option_debug(e.avatar_url) + ", body: "@,
            quoted_event_debug(e),
        ),
        crate::text::occurs_in(
            ", body: "@ + e.body + ", url: "@,
            quoted_event_debug(e),
        ),
        crate::text::occurs_in(
            ", url: "@ + e.url + ", timestamp: "@,
            quoted_event_debug(e),
        ),
        crate::text::occurs_in(
            ", timestamp: "@ + e.timestamp + ", read: "@,
            quoted_event_debug(e),
        ),
        crate::text::occurs_in(
            ", read: "@ + bool_debug(e.read) + " }"@,
            quoted_event_debug(e),
        ),
{
    let t0 = "GhEventV1 { id: "@;
    let t1 = t0 + e.id;
    let t2 = t1 + ", kind: "@;
    let t3 = t2 + crate::text::decimal(e.kind as nat);
    let t4 = t3 + ", repo: "@;
    let t5 = t4 + e.repo;
    let t6 = t5 + ", number: "@;
    let t7 = t6 + crate::text::decimal(e.number as nat);
    let t8 = t7 + ", title: "@;
    let t9 = t8 + e.title;
    let t10 = t9 + ", author: "@;
    let t11 = t10 + e.author;
    let t12 = t11 + ", avatar_url: "@;
    let t13 = t12 + quoted_option_debug(e.avatar_url);
    let t14 = t13 + ", body: "@;
    let t15 = t14 + e.body;
    let t16 = t15 + ", url: "@;
    let t17 = t16 + e.url;
    let t18 = t17 + ", timestamp: "@;
    let t19 = t18 + e.timestamp;
    let t20 = t19 + ", read: "@;
    let t21 = t20 + bool_debug(e.read);
    let t22 = t21 + " }"@;
    assert(Seq::<char>::empty() + t0 =~= t0);
    ends_in(Seq::empty(), "GhEventV1 { id: "@, e.id, ", kind: "@);
    ends_in(t1, ", kind: "@, crate::text::decimal(e.kind as nat), ", repo: "@);
    ends_in(t3, ", repo: "@, e.repo, ", number: "@);
    ends_in(t5, ", number: "@, crate::text::decimal(e.number as nat), ", title: "@);
    ends_in(t7, ", title: "@, e.title, ", author: "@);
    ends_in(t9, ", author: "@, e.author, ", avatar_url: "@);
    ends_in(t11, ", avatar_url: "@, quoted_option_debug(e.avatar_url), ", body: "@);
    ends_in(t13, ", body: "@, e.body, ", url: "@);
    ends_in(t15, ", url: "@, e.url, ", timestamp: "@);
    ends_in(t17, ", timestamp: "@, e.timestamp, ", read: "@);
    ends_in(t19, ", read: "@, bool_debug(e.read), " }"@);
    occurrences_stay(t2, crate::text::decimal(e.kind as nat));
    occurrences_stay(t3, ", repo: "@);
    occurrences_stay(t4, e.repo);
    occurrences_stay(t5, ", number: "@);
    occurrences_stay(t6, crate::text::decimal(e.number as nat));
    occurrences_stay(t7, ", title: "@);
    occurrences_stay(t8, e.title);
    occurrences_stay(t9, ", author: "@);
    occurrences_stay(t10, e.author);
    occurrences_stay(t11, ", avatar_url: "@);
    occurrences_stay(t12, quoted_option_debug(e.avatar_url));
    occurrences_stay(t13, ", body: "@);
    occurrences_stay(t14, e.body);
    occurrences_stay(t15, ", url: "@);
    occurrences_stay(t16, e.url);
    occurrences_stay(t17, ", timestamp: "@);
    occurrences_stay(t18, e.timestamp);
    occurrences_stay(t19, ", read: "@);
    occurrences_stay(t20, bool_debug(e.read));
    occurrences_stay(t21, " }"@);
}

/// An event in debugging output is that of its texts in quotes; what is no text stays as it is.
pub proof fn texts_are_quoted(e: EventModel)
    ensures
        event_debug(e) == quoted_event_debug(quoted_event(e)),
        quoted_event(e).id == crate::text::quoted(e.id),
        quoted_event(e).kind == e.kind,
        quoted_event(e).repo == crate::text::quoted(e.repo),
        quoted_event(e).number == e.number,
        quoted_event(e).title == crate::text::quoted(e.title),
        quoted_event(e).author == crate::text::quoted(e.author),
        e.avatar_url is None ==> quoted_event(e).avatar_url is None,
        e.avatar_url matches Some(url) ==> quoted_event(e).avatar_url == Some(
            crate::text::quoted(url),
        ),
        quoted_event(e).body == crate::text::quoted(e.body),
        quoted_event(e).url == crate::text::quoted(e.url),
        quoted_event(e).timestamp == crate::text::quoted(e.timestamp),
        quoted_event(e).read == e.read,
{
}

/// Truth values and optional texts in debugging output are told apart.
pub proof fn small_values_are_told(b: bool, s: Seq<char>)
    ensures
        bool_debug(b) == "true"@ <==> b,
        bool_debug(b) == "false"@ <==> !b,
        quoted_option_debug(None) == "None"@,
        quoted_option_debug(Some(s)) == "Some("@ + (s + ")"@),
{
    reveal_strlit("true");
    reveal_strlit("false");
    assert("true"@.len() == 4);
    assert("false"@.len() == 5);
    assert(quoted_option_debug(Some(s)) =~= "Some("@ + (s + ")"@));
}

/// The items of two lists, one behind the other, are the items of both with a comma and a space
/// between. One item stands alone, and no item is no text.
pub proof fn lists_are_joined_by_commas(a: Seq<Seq<char>>, b: Seq<Seq<char>>, item: Seq<char>)
    requires
        a.len() > 0,
        b.len() > 0,
    ensures
        comma_separated(a + b) == comma_separated(a) + seq![',', ' '] + comma_separated(b),
        comma_separated(seq![item]) == item,
        comma_separated(Seq::empty()).len() == 0,
        list_debug(a) == seq!['['] + comma_separated(a) + seq![']'],
    decreases b.len(),
{
    reveal_strlit("[");
    reveal_strlit("]");
    reveal_strlit(", ");
    assert("["@ =~= seq!['[']);
    assert("]"@ =~= seq![']']);
    assert(", "@ =~= seq![',', ' ']);
    let front = b.drop_last();
    assert(front.push(b.last()) =~= b);
    comma_separated_push(a + front, b.last());
    comma_separated_push(front, b.last());
    assert((a + front).push(b.last()) =~= a + b);
    if front.len() > 0 {
        lists_are_joined_by_commas(a, front, item);
    } else {
        assert(a + front =~= a);
    }
    assert(comma_separated(a + b) =~= comma_separated(a) + seq![',', ' '] + comma_separated(b));
}

/// A response in debugging output shows its variant, and in brackets what it holds: all events in
/// their order, the event where there is one, or the configuration.
pub proof fn debug_shows_the_response(
    events: Vec<GhEvent>,
    event: GhEvent,
    config: AppConfig,
    texts: Seq<Seq<char>>,
)
    requires
        texts.len() == events@.len(),
        forall|i: int| 0 <= i < texts.len() ==> #[trigger] texts[i] == event_debug(events@[i]@),
    ensures
        response_debug(Response::Events(events)) == "Events("@ + list_debug(texts) + ")"@,
        response_debug(Response::Event(Some(event))) == "Event(Some("@ + event_debug(event@)
            + "))"@,
        response_debug(Response::Event(None)) == "Event(None)"@,
        response_debug(Response::Config(config)) == "Config("@ + config_debug(config@) + ")"@,
        response_debug(Response::Done) == "Ok"@,
{
    assert(event_models(events@).map_values(|e: EventModel| event_debug(e)) =~= texts);
}

/// A configuration in debugging output shows its interval, all subscriptions in their order and
/// whether there is a token, and a subscription its kind and its name in quotes.
pub proof fn debug_shows_the_configuration(c: AppConfigModel, texts: Seq<Seq<char>>)
    requires
        texts.len() == c.subscriptions.len(),
        forall|i: int|
            0 <= i < texts.len() ==> #[trigger] texts[i] == "Subscription { kind: "@ + (
            if c.subscriptions[i].kind is Org {
                "Org"@
            } else {
                "Repo"@
            }) + ", name: "@ + crate::text::quoted(c.subscriptions[i].name) + " }"@,
    ensures
        config_debug(c) == "AppConfig { poll_interval_secs: "@ + crate::text::decimal(
            c.poll_interval_secs as nat,
        ) + ", subscriptions: "@ + list_debug(texts) + ", has_token: "@ + (if c.has_token {
            "true"@
        } else {
            "false"@
        }) + " }"@,
{
    assert(c.subscriptions.map_values(|s: SubscriptionModel| subscription_debug(s)) =~= texts);
}

/// An answer of another variant than the expected one is an error of the bridge, which says what
/// was expected and ends in the answer.
pub proof fn unexpected_answers_are_told(expected: Seq<char>, got: Response)
    ensures
        unexpected_response(expected, got).kind is Serialization,
        unexpected_response(expected, got).message == "expected Response::"@ + expected + (
        ", got "@ + response_debug(got)),
{
    assert("expected Response::"@ + expected + ", got "@ + response_debug(got)
        =~= "expected Response::"@ + expected + (", got "@ + response_debug(got)));
}

/// What can be said of a kind is said by its number, its label and its badge, and what is said of
/// an event's kind is said of its number.
pub proof fn kinds_say_what_they_are(
    kind: &EventKind,
    event: &GhEventV1,
    badge: &'static str,
    text: String,
    of_event: Result<EventKind, UnknownEventKind>,
)
    requires
        call_ensures(EventKind::badge_class, (kind,), badge),
        call_ensures(EventKind::to_string, (kind,), text),
        call_ensures(GhEventV1::kind, (event,), of_event),
    ensures
        *kind is NewIssue <==> badge@ == "bg-success"@,
        *kind is NewPullRequest <==> badge@ == "bg-primary"@,
        *kind is NewComment <==> badge@ == "bg-secondary"@,
        *kind is NewIssue || *kind is IssueStateChange <==> text@ == "Issue"@,
        *kind is NewPullRequest || *kind is PRStateChange <==> text@ == "PR"@,
        *kind is NewComment <==> text@ == "Comment"@,
        of_event is Ok <==> event.kind <= 4,
        of_event matches Ok(kind) ==> kind_code(kind) == event.kind,
        of_event matches Err(e) ==> e.value == event.kind,
{
    labels_and_badges_tell_kinds(*kind, EventKind::NewIssue);
    labels_and_badges_tell_kinds(*kind, EventKind::NewPullRequest);
    labels_and_badges_tell_kinds(*kind, EventKind::NewComment);
    kind_of_code_is_exact(event.kind);
}

/// A response is taken as what it was expected to be, with what it holds. One of another variant is
/// an error of the bridge, which says what was expected.
pub proof fn responses_are_unwrapped(
    response: Response,
    events: Result<Vec<GhEvent>, AppError>,
    event: Result<Option<GhEvent>, AppError>,
    config: Result<AppConfig, AppError>,
    done: Result<(), AppError>,
)
    requires
        call_ensures(Response::into_events, (response,), events),
        call_ensures(Response::into_event, (response,), event),
        call_ensures(Response::into_config, (response,), config),
        call_ensures(Response::into_ok, (response,), done),
    ensures
        events is Ok <==> response is Events,
        events matches Ok(held) ==> response == Response::Events(held),
        event is Ok <==> response is Event,
        event matches Ok(held) ==> response == Response::Event(held),
        config is Ok <==> response is Config,
        config matches Ok(held) ==> response == Response::Config(held),
        done is Ok <==> response is Done,
        events matches Err(e) ==> e.kind is Serialization && e.message@ == "expected Response::"@
            + "Events"@ + (", got "@ + response_debug(response)),
        event matches Err(e) ==> e.kind is Serialization && e.message@ == "expected Response::"@
            + "Event"@ + (", got "@ + response_debug(response)),
        config matches Err(e) ==> e.kind is Serialization && e.message@ == "expected Response::"@
            + "Config"@ + (", got "@ + response_debug(response)),
        done matches Err(e) ==> e.kind is Serialization && e.message@ == "expected Response::"@
            + "Ok"@ + (", got "@ + response_debug(response)),
{
    unexpected_answers_are_told("Events"@, response);
    unexpected_answers_are_told("Event"@, response);
    unexpected_answers_are_told("Config"@, response);
    unexpected_answers_are_told("Ok"@, response);
}

/// A filter that nothing was said to admits every event, and an event that nothing was said of is
/// unread, a new issue, and without texts.
pub proof fn defaults_say_nothing(filter: EventFilter, event: GhEventV1)
    requires
        call_ensures(<EventFilter as Default>::default, (), filter),
        call_ensures(<GhEventV1 as Default>::default, (), event),
    ensures
        filter.repo is None,
        !filter.unread_only,
        filter.limit is None,
        event.id@.len() == 0,
        event.kind == kind_code(EventKind::NewIssue),
        event.repo@.len() == 0,
        event.number == 0,
        event.title@.len() == 0,
        event.author@.len() == 0,
        event.avatar_url is None,
        event.body@.len() == 0,
        event.url@.len() == 0,
        event.timestamp@.len() == 0,
        !event.read,
{
    events_are_their_fields(event);
}

/// Besides its fields and their names, an event in debugging output shows nothing.
pub proof fn debug_shows_nothing_else(e: EventModel)
    ensures
        quoted_event_debug(e).len() == 113 + e.id.len() + crate::text::decimal(
            e.kind as nat,
        ).len() + e.repo.len() + crate::text::decimal(e.number as nat).len() + e.title.len()
            + e.author.len() + quoted_option_debug(e.avatar_url).len() + e.body.len() + e.url.len()
            + e.timestamp.len() + bool_debug(e.read).len(),
{
    reveal_strlit("GhEventV1 { id: ");
    reveal_strlit(", kind: ");
    reveal_strlit(", repo: ");
    reveal_strlit(", number: ");
    reveal_strlit(", title: ");
    reveal_strlit(", author: ");
    reveal_strlit(", avatar_url: ");
    reveal_strlit(", body: ");
    reveal_strlit(", url: ");
    reveal_strlit(", timestamp: ");
    reveal_strlit(", read: ");
    reveal_strlit(" }");
}

} // verus!
