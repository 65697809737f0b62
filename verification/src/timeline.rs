//! The timeline: the events that are shown, and what the user's actions lead to.
//!
//! The view is a state machine. [`TimelineView::act`] takes an action, changes what is shown and
//! returns what is to be done outside of the view, in order; [`TimelineView::finish_load`] takes
//! in the events that a load brought.

use crate::groups::group_events;
use crate::rows::{showable, EventGroupRow};
use crate::text::{contains, decimal_text, is_empty, str_eq, to_lowercase};
use crate::view::{Alert, Flavor};
use crate::wire::{AppError, Command, EventFilter, GhEvent, Response};
use vstd::prelude::*;
use vstd::string::StringExecFns;

verus! {

/// How many events a load asks for at most.
pub const LOAD_LIMIT: u32 = 200;

/// How many milliseconds pass between asking for a poll and loading what it brought.
pub const REFRESH_MILLIS: u64 = 500;

/// Which events are shown.
#[derive(Clone, Copy, Debug, PartialEq, Eq, Structural)]
pub enum FilterMode {
    All,
    Unread,
}

/// What the timeline shows.
#[derive(Debug)]
pub struct TimelineView {
    /// Status/empty-state alert.
    pub status_alert: Alert,
    /// Whether the refresh button is disabled and shows a spinner.
    pub refreshing: bool,
    /// Flavor of the filter button "All".
    pub filter_all_flavor: Flavor,
    /// Flavor of the filter button "Unread".
    pub filter_unread_flavor: Flavor,
    /// Current grouped event rows.
    pub group_rows: Vec<EventGroupRow>,
    /// Loaded events, before filtering.
    pub loaded_events: Vec<GhEvent>,
    /// Current filter mode.
    pub filter_mode: FilterMode,
    /// Current search text.
    pub search_text: String,
    /// Whether initial load has happened.
    pub loaded: bool,
}

/// The contents of a timeline.
#[verifier::ext_equal]
pub struct TimelineModel {
    pub status: crate::view::AlertModel,
    pub refreshing: bool,
    pub filter_all_flavor: Flavor,
    pub filter_unread_flavor: Flavor,
    pub rows: Seq<crate::rows::GroupRowModel>,
    pub loaded_events: Seq<GhEvent>,
    pub filter_mode: FilterMode,
    pub search_text: Seq<char>,
    pub loaded: bool,
}

impl View for TimelineView {
    type V = TimelineModel;

    open spec fn view(&self) -> TimelineModel {
        TimelineModel {
            status: self.status_alert@,
            refreshing: self.refreshing,
            filter_all_flavor: self.filter_all_flavor,
            filter_unread_flavor: self.filter_unread_flavor,
            rows: crate::rows::row_models(self.group_rows@),
            loaded_events: self.loaded_events@,
            filter_mode: self.filter_mode,
            search_text: self.search_text@,
            loaded: self.loaded,
        }
    }
}

/// What the user does, or the backend pushes.
#[derive(Debug)]
pub enum TimelineAction {
    Refresh,
    FilterAll,
    FilterUnread,
    MarkAllRead,
    /// Search text changed: (new_text)
    SearchTextChanged(String),
    /// Parent "Open" button clicked: (group_index)
    ParentOpenClicked(usize),
    /// Parent "Mark Read" button clicked: (group_index)
    ParentMarkReadClicked(usize),
    /// Comment toggle clicked: (group_index)
    ToggleComments(usize),
    /// Comment row clicked: (group_index, comment_index)
    CommentClicked(usize, usize),
    NewServerEvents,
}

/// Something to be done outside of the view.
#[derive(Debug)]
pub enum TimelineEffect {
    /// Start listening for what the backend pushes.
    Subscribe,
    /// Send a command to the backend; an error is logged, and the next effect follows.
    Send(Command),
    /// Wait, in milliseconds.
    Wait(u64),
    /// Open a URL in the system browser.
    Open(String),
    /// Send [`TimelineView::load_command`], and hand what came back to
    /// [`TimelineView::finish_load`].
    Load,
    /// Call [`TimelineView::end_refresh`].
    EndRefresh,
}

/// What is looked for: nothing, where the search text is empty.
pub open spec fn needle_of(search: Seq<char>) -> Seq<char> {
    if search.len() == 0 {
        Seq::empty()
    } else {
        crate::text::lowercase(search)
    }
}

/// The text of an event that is searched, of its title, author and repo in lower case.
pub open spec fn searchable(
    title: Seq<char>,
    author: Seq<char>,
    repo: Seq<char>,
    number: u64,
) -> Seq<char> {
    title + " "@ + author + " "@ + repo + " #"@ + crate::text::decimal(number as nat)
}

/// Whether an event, given by its title, author and repo in lower case, is found.
pub open spec fn found(
    needle: Seq<char>,
    title: Seq<char>,
    author: Seq<char>,
    repo: Seq<char>,
    number: u64,
) -> bool {
    needle.len() == 0 || crate::text::occurs_in(needle, searchable(title, author, repo, number))
}

/// The test that an event passes to be shown.
pub open spec fn passes(mode: FilterMode, needle: Seq<char>) -> spec_fn(GhEvent) -> bool {
    |e: GhEvent|
        {
            &&& (mode == FilterMode::All || !e.read)
            &&& found(
                needle,
                crate::text::lowercase(e.title@),
                crate::text::lowercase(e.author@),
                crate::text::lowercase(e.repo@),
                e.number,
            )
        }
}

/// The events that are shown.
pub open spec fn filtered(
    events: Seq<GhEvent>,
    mode: FilterMode,
    search: Seq<char>,
) -> Seq<GhEvent> {
    events.filter(passes(mode, needle_of(search)))
}

/// The message where no event is shown.
pub open spec fn empty_message(mode: FilterMode, search: Seq<char>) -> Seq<char> {
    if search.len() > 0 {
        "No events match your search."@
    } else {
        match mode {
            FilterMode::Unread => "No unread events."@,
            FilterMode::All => "No events yet. Configure subscriptions in Settings."@,
        }
    }
}

/// Whether the bodies of all events that are shown can be cut for their rows.
pub open spec fn can_present(
    events: Seq<GhEvent>,
    mode: FilterMode,
    search: Seq<char>,
) -> bool {
    forall|i: int|
        0 <= i < crate::groups::grouped(filtered(events, mode, search)).len()
            ==> crate::rows::can_show(
            #[trigger] crate::groups::grouped(filtered(events, mode, search))[i],
        )
}

/// The rows of groups.
pub open spec fn rows_of(groups: Seq<crate::groups::GroupModel>) -> Seq<
    crate::rows::GroupRowModel,
> {
    groups.map_values(|g: crate::groups::GroupModel| crate::rows::group_row(g))
}

/// A timeline whose rows are made anew from its loaded events.
pub open spec fn rebuilt(m: TimelineModel) -> TimelineModel {
    let shown = filtered(m.loaded_events, m.filter_mode, m.search_text);
    if shown.len() == 0 {
        TimelineModel {
            rows: Seq::empty(),
            status: crate::view::shown(
                empty_message(m.filter_mode, m.search_text),
                Flavor::Info,
            ),
            ..m
        }
    } else {
        TimelineModel {
            rows: rows_of(crate::groups::grouped(shown)),
            status: crate::view::hidden(m.status),
            ..m
        }
    }
}

/// The flavors of the filter buttons: the one of the current mode stands out.
pub open spec fn button_flavors(mode: FilterMode) -> (Flavor, Flavor) {
    match mode {
        FilterMode::All => (Flavor::Primary, Flavor::Secondary),
        FilterMode::Unread => (Flavor::Secondary, Flavor::Primary),
    }
}

/// A timeline before its first load.
pub open spec fn initial() -> TimelineModel {
    TimelineModel {
        status: crate::view::shown("Loading events..."@, Flavor::Info),
        refreshing: false,
        filter_all_flavor: Flavor::Primary,
        filter_unread_flavor: Flavor::Secondary,
        rows: Seq::empty(),
        loaded_events: Seq::empty(),
        filter_mode: FilterMode::All,
        search_text: Seq::empty(),
        loaded: false,
    }
}

/// Whether the filter buttons show the mode, and each row its state.
pub open spec fn timeline_ok(m: TimelineModel) -> bool {
    &&& (m.filter_all_flavor, m.filter_unread_flavor) == button_flavors(m.filter_mode)
    &&& forall|i: int| 0 <= i < m.rows.len() ==> crate::rows::row_ok(#[trigger] m.rows[i])
}

/// A timeline after events were loaded: they are shown without a search.
pub open spec fn with_events(m: TimelineModel, events: Seq<GhEvent>) -> TimelineModel {
    TimelineModel {
        loaded: true,
        ..rebuilt(TimelineModel { loaded_events: events, search_text: Seq::empty(), ..m })
    }
}

/// A timeline after a load failed.
pub open spec fn with_load_error(m: TimelineModel, message: Seq<char>) -> TimelineModel {
    TimelineModel {
        status: crate::view::shown("Error loading events: "@ + message, Flavor::Danger),
        ..m
    }
}

/// A timeline after what came back of a load was taken in.
pub open spec fn load_finished(
    m: TimelineModel,
    result: Result<Response, AppError>,
) -> TimelineModel {
    match result {
        Ok(Response::Events(events)) => with_events(m, events@),
        Ok(response) => with_load_error(
            m,
            crate::wire::unexpected_response("Events"@, response).message,
        ),
        Err(e) => with_load_error(m, e.message@),
    }
}

/// The command that loads the events for a mode.
pub open spec fn load_request(mode: FilterMode) -> Command {
    Command::GetEvents(
        EventFilter { repo: None, unread_only: mode == FilterMode::Unread, limit: Some(200) },
    )
}

/// A timeline in another mode.
pub open spec fn with_mode(m: TimelineModel, mode: FilterMode) -> TimelineModel {
    TimelineModel {
        filter_mode: mode,
        filter_all_flavor: button_flavors(mode).0,
        filter_unread_flavor: button_flavors(mode).1,
        ..m
    }
}

/// The effect of marking an event as read.
pub open spec fn mark_read(e: GhEvent) -> TimelineEffect {
    TimelineEffect::Send(Command::MarkRead { id: e.id })
}

/// The effects of marking comments as read.
pub open spec fn mark_comments_read(comments: Seq<crate::rows::CommentRowModel>) -> Seq<
    TimelineEffect,
> {
    comments.map_values(|c: crate::rows::CommentRowModel| mark_read(c.event))
}

/// What is to be done before the view waits for an action.
pub open spec fn first_effects(m: TimelineModel) -> Seq<TimelineEffect> {
    if m.loaded {
        Seq::empty()
    } else {
        seq![TimelineEffect::Subscribe, TimelineEffect::Load]
    }
}

/// A timeline after a refresh ended.
pub open spec fn refresh_ended(m: TimelineModel) -> TimelineModel {
    TimelineModel { refreshing: false, ..m }
}

/// What an action leads to: what is shown then, and what is to be done, in order.
pub open spec fn acted(m: TimelineModel, action: TimelineAction) -> (
    TimelineModel,
    Seq<TimelineEffect>,
) {
    match action {
        TimelineAction::Refresh => (
            TimelineModel { refreshing: true, ..m },
            seq![
                TimelineEffect::Send(Command::PollNow),
                TimelineEffect::Wait(500),
                TimelineEffect::Load,
                TimelineEffect::EndRefresh,
            ],
        ),
        TimelineAction::FilterAll => if m.filter_mode == FilterMode::All {
            (m, Seq::empty())
        } else {
            (with_mode(m, FilterMode::All), seq![TimelineEffect::Load])
        },
        TimelineAction::FilterUnread => if m.filter_mode == FilterMode::Unread {
            (m, Seq::empty())
        } else {
            (with_mode(m, FilterMode::Unread), seq![TimelineEffect::Load])
        },
        TimelineAction::MarkAllRead => (
            m,
            seq![
                TimelineEffect::Send(Command::MarkAllRead { repo: None }),
                TimelineEffect::Load,
            ],
        ),
        TimelineAction::SearchTextChanged(text) => if text@ == m.search_text {
            (m, Seq::empty())
        } else {
            (rebuilt(TimelineModel { search_text: text@, ..m }), Seq::empty())
        },
        TimelineAction::ParentOpenClicked(gi) => if gi < m.rows.len() {
            (m, seq![TimelineEffect::Open(m.rows[gi as int].parent.url), TimelineEffect::Load])
        } else {
            (m, Seq::empty())
        },
        TimelineAction::ParentMarkReadClicked(gi) => if gi < m.rows.len() {
            let row = m.rows[gi as int];
            (
                m,
                seq![mark_read(row.parent)] + mark_comments_read(row.comments)
                    + seq![TimelineEffect::Load],
            )
        } else {
            (m, Seq::empty())
        },
        TimelineAction::ToggleComments(gi) => if gi < m.rows.len() {
            (
                TimelineModel {
                    rows: m.rows.update(gi as int, crate::rows::toggled(m.rows[gi as int])),
                    ..m
                },
                Seq::empty(),
            )
        } else {
            (m, Seq::empty())
        },
        TimelineAction::CommentClicked(gi, ci) => if gi < m.rows.len() && ci
            < m.rows[gi as int].comments.len() {
            let e = m.rows[gi as int].comments[ci as int].event;
            (
                m,
                if e.read {
                    seq![TimelineEffect::Open(e.url), TimelineEffect::Load]
                } else {
                    seq![mark_read(e), TimelineEffect::Open(e.url), TimelineEffect::Load]
                },
            )
        } else {
            (m, Seq::empty())
        },
        TimelineAction::NewServerEvents => (m, seq![TimelineEffect::Load]),
    }
}

/// Whether what an action shows can be shown: only a new search makes new rows.
pub open spec fn can_act(m: TimelineModel, action: TimelineAction) -> bool {
    match action {
        TimelineAction::SearchTextChanged(text) => text@ != m.search_text ==> can_present(
            m.loaded_events,
            m.filter_mode,
            text@,
        ),
        _ => true,
    }
}

/// Whether what came back of a load can be shown.
pub open spec fn can_finish(m: TimelineModel, result: Result<Response, AppError>) -> bool {
    match result {
        Ok(Response::Events(events)) => can_present(events@, m.filter_mode, Seq::empty()),
        _ => true,
    }
}

/// What an action leads to, where it can be shown; otherwise nothing changes, and nothing comes of
/// it.
pub open spec fn act_tried(m: TimelineModel, action: TimelineAction) -> (
    TimelineModel,
    Option<Seq<TimelineEffect>>,
) {
    if can_act(m, action) {
        (acted(m, action).0, Some(acted(m, action).1))
    } else {
        (m, None)
    }
}

/// A timeline after a load, where it can be shown, and whether it could; otherwise nothing changes.
pub open spec fn load_tried(m: TimelineModel, result: Result<Response, AppError>) -> (
    TimelineModel,
    bool,
) {
    if can_finish(m, result) {
        (load_finished(m, result), true)
    } else {
        (m, false)
    }
}

/// Whether an event is found, given by its title, author and repo in lower case.
pub fn matches_search(
    needle: &str,
    title: &str,
    author: &str,
    repo: &str,
    number: u64,
) -> (r: bool)
    ensures
        r == found(needle@, title@, author@, repo@, number),
{
    if is_empty(needle) {
        return true;
    }
    let mut text = title.to_owned();
    text.append(" ");
    text.append(author);
    text.append(" ");
    text.append(repo);
    text.append(" #");
    text.append(decimal_text(number).as_str());
    contains(text.as_str(), needle)
}

fn passes_filter(event: &GhEvent, mode: FilterMode, needle: &str) -> (r: bool)
    ensures
        r == passes(mode, needle@)(*event),
{
    let passes_unread = mode == FilterMode::All || !event.read;
    let title = to_lowercase(event.title.as_str());
    let author = to_lowercase(event.author.as_str());
    let repo = to_lowercase(event.repo.as_str());
    passes_unread && matches_search(
        needle,
        title.as_str(),
        author.as_str(),
        repo.as_str(),
        event.number,
    )
}

fn filter_events(events: &Vec<GhEvent>, mode: FilterMode, needle: &str) -> (r: Vec<GhEvent>)
    ensures
        r@ == events@.filter(passes(mode, needle@)),
{
    let ghost p = passes(mode, needle@);
    let mut shown: Vec<GhEvent> = Vec::new();
    let mut i: usize = 0;
    proof {
        reveal(Seq::filter);
        assert(events@.take(0).filter(p) =~= Seq::empty());
    }
    while i < events.len()
        invariant
            i <= events.len(),
            p == passes(mode, needle@),
            shown@ == events@.take(i as int).filter(p),
        decreases events.len() - i,
    {
        proof {
            events@.take(i as int).lemma_filter_push(events@[i as int], p);
            assert(events@.take(i + 1) =~= events@.take(i as int).push(events@[i as int]));
        }
        if passes_filter(&events[i], mode, needle) {
            shown.push(events[i].clone());
        }
        i = i + 1;
    }
    assert(events@.take(i as int) =~= events@);
    shown
}

fn needle_text(search: &str) -> (r: String)
    ensures
        r@ == needle_of(search@),
        r@.len() == 0 <==> search@.len() == 0,
{
    let r = to_lowercase(search);
    assert(search@.len() == 0 ==> r@ =~= Seq::empty());
    r
}

/// Whether the bodies of all events that would be shown can be cut for their rows.
pub fn presentable(events: &Vec<GhEvent>, mode: FilterMode, search: &str) -> (r: bool)
    ensures
        r == can_present(events@, mode, search@),
{
    let needle = needle_text(search);
    let groups = group_events(filter_events(events, mode, needle.as_str()));
    let ghost all = crate::groups::grouped(filtered(events@, mode, search@));
    let mut i: usize = 0;
    while i < groups.len()
        invariant
            i <= groups.len(),
            crate::groups::group_models(groups@) == all,
            all == crate::groups::grouped(filtered(events@, mode, search@)),
            forall|j: int| 0 <= j < i ==> crate::rows::can_show(#[trigger] all[j]),
        decreases groups.len() - i,
    {
        assert(all[i as int] == groups@[i as int]@);
        if !showable(&groups[i]) {
            return false;
        }
        i = i + 1;
    }
    true
}

impl Default for TimelineView {
    fn default() -> (r: Self)
        ensures
            r@ == initial(),
            timeline_ok(r@),
    {
        let r = TimelineView {
            status_alert: Alert::new("Loading events...".to_owned(), Flavor::Info),
            refreshing: false,
            filter_all_flavor: Flavor::Primary,
            filter_unread_flavor: Flavor::Secondary,
            group_rows: Vec::new(),
            loaded_events: Vec::new(),
            filter_mode: FilterMode::All,
            search_text: String::new(),
            loaded: false,
        };
        assert(r@.rows =~= Seq::empty());
        r
    }
}

impl TimelineView {
    /// A timeline before its first load.
    pub fn new() -> (r: Self)
        ensures
            r@ == initial(),
            timeline_ok(r@),
    {
        Self::default()
    }

    /// What is to be done before the view waits for an action: as long as nothing was loaded,
    /// it subscribes to server events and loads.
    pub fn start(&self) -> (r: Vec<TimelineEffect>)
        ensures
            r@ == first_effects(self@),
    {
        if self.loaded {
            Vec::new()
        } else {
            vec![TimelineEffect::Subscribe, TimelineEffect::Load]
        }
    }

    /// The command that loads the events.
    pub fn load_command(&self) -> (r: Command)
        ensures
            r == load_request(self@.filter_mode),
    {
        Command::GetEvents(
            EventFilter {
                repo: None,
                unread_only: self.filter_mode == FilterMode::Unread,
                limit: Some(LOAD_LIMIT),
            },
        )
    }

    /// Takes in what came back of a load: the events are grouped, and the list is rebuilt.
    pub fn finish_load(&mut self, result: Result<Response, AppError>)
        requires
            can_finish(old(self)@, result),
            timeline_ok(old(self)@),
        ensures
            final(self)@ == load_finished(old(self)@, result),
            timeline_ok(final(self)@),
    {
        let events = match result {
            Ok(response) => response.into_events(),
            Err(e) => Err(e),
        };
        match events {
            Ok(events) => {
                // Keep the events for client-side filtering
                self.loaded_events = events;
                // Reset search when loading new events
                self.search_text = String::new();
                assert(self.search_text@ =~= Seq::empty());
                self.rebuild_filtered_events();
                self.loaded = true;
            },
            Err(e) => {
                let mut text = "Error loading events: ".to_owned();
                text.append(e.to_string().as_str());
                self.status_alert = Alert::new(text, Flavor::Danger);
            },
        }
    }

    fn update_filter_buttons(&mut self)
        ensures
            final(self)@ == with_mode(old(self)@, old(self)@.filter_mode),
    {
        match self.filter_mode {
            FilterMode::All => {
                self.filter_all_flavor = Flavor::Primary;
                self.filter_unread_flavor = Flavor::Secondary;
            },
            FilterMode::Unread => {
                self.filter_all_flavor = Flavor::Secondary;
                self.filter_unread_flavor = Flavor::Primary;
            },
        }
    }

    /// Rebuild the event list with client-side filtering applied.
    /// Filters by search text and unread status.
    fn rebuild_filtered_events(&mut self)
        requires
            can_present(
                old(self)@.loaded_events,
                old(self)@.filter_mode,
                old(self)@.search_text,
            ),
        ensures
            final(self)@ == rebuilt(old(self)@),
            forall|i: int|
                0 <= i < final(self)@.rows.len() ==> crate::rows::row_ok(
                    #[trigger] final(self)@.rows[i],
                ),
    {
        let ghost m = self@;
        let needle = needle_text(self.search_text.as_str());
        let shown = filter_events(&self.loaded_events, self.filter_mode, needle.as_str());
        let mut rows: Vec<EventGroupRow> = Vec::new();
        if shown.len() == 0 {
            let message = if !is_empty(needle.as_str()) {
                "No events match your search."
            } else {
                match self.filter_mode {
                    FilterMode::Unread => "No unread events.",
                    FilterMode::All => "No events yet. Configure subscriptions in Settings.",
                }
            };
            self.status_alert = Alert::new(message.to_owned(), Flavor::Info);
            assert(crate::rows::row_models(rows@) =~= Seq::empty());
        } else {
            self.status_alert.dismiss();
            let ghost events = shown@;
            let groups = group_events(shown);
            let ghost all = crate::groups::grouped(events);
            let ghost source = groups@;
            for group in it: groups
                invariant
                    it.seq() == source,
                    crate::groups::group_models(source) == all,
                    forall|j: int| 0 <= j < all.len() ==> crate::rows::can_show(#[trigger] all[j]),
                    rows@.len() == it.index(),
                    forall|j: int|
                        0 <= j < it.index() ==> (#[trigger] rows@[j])@ == crate::rows::group_row(
                            all[j],
                        ),
            {
                assert(group@ == all[it.index()]) by {
                    assert(crate::groups::group_models(source)[it.index()] == source[it.index()]@);
                }
                rows.push(EventGroupRow::new(group));
            }
            assert(crate::rows::row_models(rows@) =~= rows_of(all));
        }
        self.group_rows = rows;
    }

    /// What can be clicked in the rows, each as the action that the click is. The toggle can be
    /// clicked only if there are comments.
    pub fn click_targets(&self) -> (r: Vec<TimelineAction>)
        ensures
            r@ == targets(self@.rows, self@.rows.len() as int),
    {
        let ghost rows = self@.rows;
        let mut r: Vec<TimelineAction> = Vec::new();
        let mut gi: usize = 0;
        while gi < self.group_rows.len()
            invariant
                gi <= self.group_rows.len(),
                rows == self@.rows,
                r@ == targets(rows, gi as int),
            decreases self.group_rows.len() - gi,
        {
            let row = &self.group_rows[gi];
            assert(rows[gi as int] == row@);
            let ghost before = r@;
            r.push(TimelineAction::ParentOpenClicked(gi));
            r.push(TimelineAction::ParentMarkReadClicked(gi));
            if row.comment_rows.len() > 0 {
                r.push(TimelineAction::ToggleComments(gi));
            }
            let ghost head = r@;
            let mut ci: usize = 0;
            assert(comment_targets(gi as int, 0) =~= Seq::empty());
            assert(head + comment_targets(gi as int, 0) =~= head);
            while ci < row.comment_rows.len()
                invariant
                    ci <= row.comment_rows.len(),
                    r@ == head + comment_targets(gi as int, ci as int),
                decreases row.comment_rows.len() - ci,
            {
                r.push(TimelineAction::CommentClicked(gi, ci));
                assert(r@ =~= head + comment_targets(gi as int, ci + 1));
                ci = ci + 1;
            }
            assert(r@ =~= before + row_targets(gi as int, row@.comments.len()));
            gi = gi + 1;
        }
        r
    }

    /// What an action leads to: the view changes what it shows, and returns what is to be done,
    /// in order.
    pub fn act(&mut self, action: TimelineAction) -> (r: Vec<TimelineEffect>)
        requires
            can_act(old(self)@, action),
            timeline_ok(old(self)@),
        ensures
            (final(self)@, r@) == acted(old(self)@, action),
            timeline_ok(final(self)@),
    {
        let mut effects: Vec<TimelineEffect> = Vec::new();
        match action {
            TimelineAction::Refresh => {
                self.refreshing = true;
                effects.push(TimelineEffect::Send(Command::PollNow));
                effects.push(TimelineEffect::Wait(REFRESH_MILLIS));
                effects.push(TimelineEffect::Load);
                effects.push(TimelineEffect::EndRefresh);
            },
            TimelineAction::FilterAll => {
                if self.filter_mode != FilterMode::All {
                    self.filter_mode = FilterMode::All;
                    self.update_filter_buttons();
                    effects.push(TimelineEffect::Load);
                }
            },
            TimelineAction::FilterUnread => {
                if self.filter_mode != FilterMode::Unread {
                    self.filter_mode = FilterMode::Unread;
                    self.update_filter_buttons();
                    effects.push(TimelineEffect::Load);
                }
            },
            TimelineAction::MarkAllRead => {
                effects.push(TimelineEffect::Send(Command::MarkAllRead { repo: None }));
                effects.push(TimelineEffect::Load);
            },
            TimelineAction::SearchTextChanged(text) => {
                if !str_eq(text.as_str(), self.search_text.as_str()) {
                    self.search_text = text;
                    self.rebuild_filtered_events();
                }
            },
            TimelineAction::ParentOpenClicked(gi) => {
                if gi < self.group_rows.len() {
                    let url = self.group_rows[gi].parent_data.url.clone();
                    effects.push(TimelineEffect::Open(url));
                    effects.push(TimelineEffect::Load);
                }
            },
            TimelineAction::ParentMarkReadClicked(gi) => {
                if gi < self.group_rows.len() {
                    let row = &self.group_rows[gi];
                    let ghost comments = row@.comments;
                    effects.push(
                        TimelineEffect::Send(Command::MarkRead { id: row.parent_data.id.clone() }),
                    );
                    let ghost head = effects@;
                    let ghost sends = mark_comments_read(comments);
                    assert(head + sends.take(0) =~= head);
                    let mut ci: usize = 0;
                    while ci < row.comment_rows.len()
                        invariant
                            ci <= row.comment_rows.len(),
                            comments == row@.comments,
                            sends == mark_comments_read(comments),
                            effects@ == head + sends.take(ci as int),
                        decreases row.comment_rows.len() - ci,
                    {
                        assert(comments[ci as int] == row.comment_rows@[ci as int]@);
                        let id = row.comment_rows[ci].event_data.id.clone();
                        effects.push(TimelineEffect::Send(Command::MarkRead { id }));
                        assert(sends.take(ci + 1) =~= sends.take(ci as int).push(
                            sends[ci as int],
                        ));
                        assert(effects@ =~= head + sends.take(ci + 1));
                        ci = ci + 1;
                    }
                    assert(sends.take(ci as int) =~= sends);
                    effects.push(TimelineEffect::Load);
                    assert(effects@ =~= head + sends + seq![TimelineEffect::Load]);
                }
            },
            TimelineAction::ToggleComments(gi) => {
                if gi < self.group_rows.len() {
                    let ghost before = self@.rows;
                    assert(crate::rows::row_ok(before[gi as int]));
                    self.group_rows[gi].toggle();
                    assert(self@.rows =~= before.update(
                        gi as int,
                        crate::rows::toggled(before[gi as int]),
                    ));
                }
            },
            TimelineAction::CommentClicked(gi, ci) => {
                if gi < self.group_rows.len() && ci < self.group_rows[gi].comment_rows.len() {
                    let event = &self.group_rows[gi].comment_rows[ci].event_data;
                    assert(self@.rows[gi as int].comments[ci as int].event == *event);
                    if !event.read {
                        effects.push(
                            TimelineEffect::Send(Command::MarkRead { id: event.id.clone() }),
                        );
                    }
                    effects.push(TimelineEffect::Open(event.url.clone()));
                    effects.push(TimelineEffect::Load);
                }
            },
            TimelineAction::NewServerEvents => {
                effects.push(TimelineEffect::Load);
            },
        }
        assert(effects@ =~= acted(old(self)@, action).1);
        effects
    }

    /// Takes in what came back of a load, where its events can be shown; otherwise the view stays
    /// as it is.
    pub fn try_finish_load(&mut self, result: Result<Response, AppError>) -> (r: bool)
        requires
            timeline_ok(old(self)@),
        ensures
            (final(self)@, r) == load_tried(old(self)@, result),
            timeline_ok(final(self)@),
    {
        proof {
            reveal_strlit("");
            assert(""@ =~= Seq::<char>::empty());
        }
        let can = match &result {
            Ok(response) => match response {
                Response::Events(events) => presentable(events, self.filter_mode, ""),
                _ => true,
            },
            Err(_) => true,
        };
        if can {
            self.finish_load(result);
        }
        can
    }

    /// What an action leads to, where it can be shown; otherwise the view stays as it is.
    pub fn try_act(&mut self, action: TimelineAction) -> (r: Option<Vec<TimelineEffect>>)
        requires
            timeline_ok(old(self)@),
        ensures
            final(self)@ == act_tried(old(self)@, action).0,
            match r {
                Some(effects) => act_tried(old(self)@, action).1 == Some(effects@),
                None => act_tried(old(self)@, action).1 is None,
            },
            timeline_ok(final(self)@),
    {
        let can = match &action {
            TimelineAction::SearchTextChanged(text) => str_eq(
                text.as_str(),
                self.search_text.as_str(),
            ) || presentable(&self.loaded_events, self.filter_mode, text.as_str()),
            _ => true,
        };
        if can {
            Some(self.act(action))
        } else {
            None
        }
    }

    /// Ends a refresh: the button can be clicked again.
    pub fn end_refresh(&mut self)
        ensures
            final(self)@ == refresh_ended(old(self)@),
    {
        self.refreshing = false;
    }
}

/// The clicks on the first `count` comments of a row.
pub open spec fn comment_targets(gi: int, count: int) -> Seq<TimelineAction> {
    Seq::new(
        count as nat,
        |ci: int| TimelineAction::CommentClicked(gi as usize, ci as usize),
    )
}

/// What can be clicked in a row with a number of comments.
pub open spec fn row_targets(gi: int, comments: nat) -> Seq<TimelineAction> {
    let head = seq![
        TimelineAction::ParentOpenClicked(gi as usize),
        TimelineAction::ParentMarkReadClicked(gi as usize),
    ];
    if comments > 0 {
        head.push(TimelineAction::ToggleComments(gi as usize)) + comment_targets(
            gi,
            comments as int,
        )
    } else {
        head
    }
}

/// What can be clicked in the first `count` rows.
pub open spec fn targets(rows: Seq<crate::rows::GroupRowModel>, count: int) -> Seq<
    TimelineAction,
>
    decreases count,
{
    if count <= 0 {
        Seq::empty()
    } else {
        targets(rows, count - 1) + row_targets(count - 1, rows[count - 1].comments.len())
    }
}

/// An event is shown exactly if it was loaded and passes the filter and the search.
pub proof fn shown_events_pass(
    events: Seq<GhEvent>,
    mode: FilterMode,
    search: Seq<char>,
    e: GhEvent,
)
    ensures
        filtered(events, mode, search).contains(e) <==> events.contains(e) && passes(
            mode,
            needle_of(search),
        )(e),
{
    let p = passes(mode, needle_of(search));
    if filtered(events, mode, search).contains(e) {
        events.lemma_filter_contains_rev(p, e);
        let i = choose|i: int| 0 <= i < events.filter(p).len() && events.filter(p)[i] == e;
        events.lemma_filter_pred(p, i);
    }
    if events.contains(e) && p(e) {
        let i = choose|i: int| 0 <= i < events.len() && events[i] == e;
        events.lemma_filter_contains(p, i);
    }
}

/// In unread mode no read event is shown.
pub proof fn unread_mode_hides_read(events: Seq<GhEvent>, search: Seq<char>, e: GhEvent)
    requires
        filtered(events, FilterMode::Unread, search).contains(e),
    ensures
        !e.read,
{
    shown_events_pass(events, FilterMode::Unread, search, e);
}

/// Without a search and a filter all loaded events are shown, in their order.
pub proof fn no_search_shows_all(events: Seq<GhEvent>)
    ensures
        filtered(events, FilterMode::All, Seq::empty()) == events,
    decreases events.len(),
{
    reveal(Seq::filter);
    let p = passes(FilterMode::All, needle_of(Seq::empty()));
    if events.len() > 0 {
        no_search_shows_all(events.drop_last());
        events.drop_last().lemma_filter_push(events.last(), p);
        assert(events.drop_last().push(events.last()) =~= events);
    } else {
        assert(events.filter(p) =~= events);
    }
}

/// What was loaded is shown whole: as many groups as there are issues and PRs among the events,
/// and a message exactly if there are none.
pub proof fn loaded_events_are_shown(m: TimelineModel, events: Seq<GhEvent>)
    requires
        m.filter_mode == FilterMode::All,
    ensures
        ({
            let after = with_events(m, events);
            &&& after.loaded
            &&& after.loaded_events == events
            &&& after.search_text.len() == 0
            &&& after.rows == rows_of(crate::groups::grouped(events))
            &&& after.status.is_visible <==> events.len() == 0
        }),
{
    no_search_shows_all(events);
    if events.len() == 0 {
        assert(rows_of(crate::groups::grouped(events)) =~= Seq::empty());
    }
}

/// A load that fails shows why, and leaves everything else as it was.
pub proof fn failed_load_keeps_view(m: TimelineModel, e: AppError)
    ensures
        load_finished(m, Err(e)) == (TimelineModel {
            status: crate::view::shown("Error loading events: "@ + e.message@, Flavor::Danger),
            ..m
        }),
{
}

/// Choosing the filter that is on does nothing.
pub proof fn same_filter_does_nothing(m: TimelineModel)
    ensures
        m.filter_mode == FilterMode::All ==> acted(m, TimelineAction::FilterAll) == (
            m,
            Seq::<TimelineEffect>::empty(),
        ),
        m.filter_mode == FilterMode::Unread ==> acted(m, TimelineAction::FilterUnread) == (
            m,
            Seq::<TimelineEffect>::empty(),
        ),
{
}

/// Marking a group as read marks its parent and each of its comments.
pub proof fn whole_group_is_marked(m: TimelineModel, gi: usize)
    requires
        gi < m.rows.len(),
    ensures
        ({
            let row = m.rows[gi as int];
            let effects = acted(m, TimelineAction::ParentMarkReadClicked(gi)).1;
            &&& effects.len() == row.comments.len() + 2
            &&& effects[0] == mark_read(row.parent)
            &&& forall|ci: int|
                0 <= ci < row.comments.len() ==> effects[ci + 1] == mark_read(
                    (#[trigger] row.comments[ci]).event,
                )
            &&& effects.last() == TimelineEffect::Load
        }),
{
}

/// Whatever is done outside of the view, the events are loaded again after it: the last effect
/// of every action that has one is a load, but for the end of a refresh.
pub proof fn effects_end_in_a_load(m: TimelineModel, action: TimelineAction)
    ensures
        ({
            let effects = acted(m, action).1;
            effects.len() == 0 || effects.last() == TimelineEffect::Load || (action
                == TimelineAction::Refresh && effects.len() > 1 && effects[effects.len() - 2]
                == TimelineEffect::Load && effects.last() == TimelineEffect::EndRefresh)
        }),
{
}

/// A comment that was read already is opened without being marked again.
pub proof fn read_comments_are_not_marked(m: TimelineModel, gi: usize, ci: usize)
    requires
        gi < m.rows.len(),
        ci < m.rows[gi as int].comments.len(),
    ensures
        ({
            let e = m.rows[gi as int].comments[ci as int].event;
            let effects = acted(m, TimelineAction::CommentClicked(gi, ci)).1;
            effects.contains(mark_read(e)) <==> !e.read
        }),
{
    let e = m.rows[gi as int].comments[ci as int].event;
    let effects = acted(m, TimelineAction::CommentClicked(gi, ci)).1;
    if !e.read {
        assert(effects[0] == mark_read(e));
    }
}

/// Whether an action is a click on a row, or on a comment, that there is.
pub open spec fn is_click(rows: Seq<crate::rows::GroupRowModel>, action: TimelineAction) -> bool {
    match action {
        TimelineAction::ParentOpenClicked(gi) => gi < rows.len(),
        TimelineAction::ParentMarkReadClicked(gi) => gi < rows.len(),
        TimelineAction::ToggleComments(gi) => gi < rows.len() && rows[gi as int].comments.len()
            > 0,
        TimelineAction::CommentClicked(gi, ci) => gi < rows.len() && ci
            < rows[gi as int].comments.len(),
        _ => false,
    }
}

/// What can be clicked is what there is, and all of it.
pub proof fn targets_are_the_clicks(
    rows: Seq<crate::rows::GroupRowModel>,
    count: int,
    action: TimelineAction,
)
    requires
        0 <= count <= rows.len(),
        rows.len() <= usize::MAX,
        forall|i: int| 0 <= i < rows.len() ==> (#[trigger] rows[i]).comments.len() <= usize::MAX,
    ensures
        targets(rows, count).contains(action) <==> is_click(rows.take(count), action),
    decreases count,
{
    let front = rows.take(count);
    if count > 0 {
        let gi = count - 1;
        let before = targets(rows, gi);
        let own = row_targets(gi, rows[gi].comments.len());
        targets_are_the_clicks(rows, gi, action);
        row_targets_are_the_clicks(gi, rows[gi].comments.len(), action);
        assert((before + own).contains(action) <==> before.contains(action) || own.contains(
            action,
        )) by {
            if before.contains(action) {
                let i = choose|i: int| 0 <= i < before.len() && before[i] == action;
                assert((before + own)[i] == action);
            }
            if own.contains(action) {
                let i = choose|i: int| 0 <= i < own.len() && own[i] == action;
                assert((before + own)[before.len() + i] == action);
            }
            if (before + own).contains(action) {
                let i = choose|i: int|
                    0 <= i < (before + own).len() && (before + own)[i] == action;
                if i < before.len() {
                    assert(before[i] == action);
                } else {
                    assert(own[i - before.len()] == action);
                }
            }
        }
    }
}

proof fn row_targets_are_the_clicks(gi: int, comments: nat, action: TimelineAction)
    requires
        0 <= gi < usize::MAX,
        comments <= usize::MAX,
    ensures
        row_targets(gi, comments).contains(action) <==> match action {
            TimelineAction::ParentOpenClicked(g) => g == gi,
            TimelineAction::ParentMarkReadClicked(g) => g == gi,
            TimelineAction::ToggleComments(g) => g == gi && comments > 0,
            TimelineAction::CommentClicked(g, ci) => g == gi && ci < comments,
            _ => false,
        },
{
    let own = row_targets(gi, comments);
    assert(own[0] == TimelineAction::ParentOpenClicked(gi as usize));
    assert(own[1] == TimelineAction::ParentMarkReadClicked(gi as usize));
    if comments > 0 {
        assert(own[2] == TimelineAction::ToggleComments(gi as usize));
    }
    match action {
        TimelineAction::CommentClicked(g, ci) => {
            if g == gi && ci < comments {
                assert(own[3 + ci as int] == action);
            }
        },
        _ => {},
    }
}

/// With a search, an event is shown exactly if it was loaded, the mode admits it, and the search
/// text in lower case occurs in its title, author, repo and number, written one behind the other,
/// in lower case. This holds in either mode.
pub proof fn search_shows_what_matches(
    events: Seq<GhEvent>,
    mode: FilterMode,
    search: Seq<char>,
    e: GhEvent,
)
    requires
        search.len() > 0,
    ensures
        filtered(events, mode, search).contains(e) <==> {
            &&& events.contains(e)
            &&& mode is Unread ==> !e.read
            &&& crate::text::occurs_in(
                crate::text::lowercase(search),
                crate::text::lowercase(e.title@) + " "@ + crate::text::lowercase(e.author@) + " "@
                    + crate::text::lowercase(e.repo@) + " #"@ + crate::text::decimal(
                    e.number as nat,
                ),
            )
        },
{
    shown_events_pass(events, mode, search, e);
    let text = crate::text::lowercase(e.title@) + " "@ + crate::text::lowercase(e.author@) + " "@
        + crate::text::lowercase(e.repo@) + " #"@ + crate::text::decimal(e.number as nat);
    if crate::text::lowercase(search).len() == 0 {
        crate::text::occurs_between(Seq::empty(), crate::text::lowercase(search), text);
        assert(Seq::empty() + crate::text::lowercase(search) + text =~= text);
    }
}

/// The events are shown in the order in which they were loaded, each as often: one more loaded
/// event is shown behind those that were shown, or not at all. Without a search it is shown
/// exactly if the mode admits it.
pub proof fn events_are_shown_in_order(
    events: Seq<GhEvent>,
    mode: FilterMode,
    search: Seq<char>,
    e: GhEvent,
)
    ensures
        filtered(Seq::empty(), mode, search).len() == 0,
        filtered(seq![e], mode, search).contains(e) ==> filtered(events.push(e), mode, search)
            == filtered(events, mode, search).push(e),
        !filtered(seq![e], mode, search).contains(e) ==> filtered(events.push(e), mode, search)
            == filtered(events, mode, search),
        search.len() == 0 ==> (filtered(seq![e], mode, search).contains(e) <==> (mode is All
            || !e.read)),
{
    reveal(Seq::filter);
    events.lemma_filter_push(e, passes(mode, needle_of(search)));
    shown_events_pass(seq![e], mode, search, e);
    assert(seq![e][0] == e);
}

/// The URLs that are opened, in order.
pub open spec fn opened(effects: Seq<TimelineEffect>) -> Seq<String>
    decreases effects.len(),
{
    if effects.len() == 0 {
        Seq::empty()
    } else {
        match effects.last() {
            TimelineEffect::Open(url) => opened(effects.drop_last()).push(url),
            _ => opened(effects.drop_last()),
        }
    }
}

/// The identifiers of the events that are marked as read, in order.
pub open spec fn marked(effects: Seq<TimelineEffect>) -> Seq<String>
    decreases effects.len(),
{
    if effects.len() == 0 {
        Seq::empty()
    } else {
        match effects.last() {
            TimelineEffect::Send(Command::MarkRead { id }) => marked(effects.drop_last()).push(id),
            _ => marked(effects.drop_last()),
        }
    }
}

/// A click to open a row opens one URL, that of the parent of the row which was clicked, and
/// changes neither what is shown nor what is read.
pub proof fn open_opens_the_clicked_row(m: TimelineModel, gi: usize)
    requires
        gi < m.rows.len(),
    ensures
        ({
            let (after, effects) = acted(m, TimelineAction::ParentOpenClicked(gi));
            &&& after == m
            &&& opened(effects) == seq![m.rows[gi as int].parent.url]
            &&& marked(effects).len() == 0
            &&& effects.len() == 2
            &&& effects[0] == TimelineEffect::Open(m.rows[gi as int].parent.url)
            &&& effects[1] is Load
        }),
{
    let url = m.rows[gi as int].parent.url;
    let effects = acted(m, TimelineAction::ParentOpenClicked(gi)).1;
    assert(effects.drop_last() =~= seq![TimelineEffect::Open(url)]);
    assert(seq![TimelineEffect::Open(url)].drop_last() =~= Seq::empty());
    reveal_with_fuel(opened, 3);
    reveal_with_fuel(marked, 3);
    assert(opened(effects) =~= seq![url]);
}

/// A click on a comment opens one URL, that of the comment which was clicked, and marks that
/// comment as read if it was not, before it opens it; nothing else is marked or opened.
pub proof fn click_opens_the_clicked_comment(m: TimelineModel, gi: usize, ci: usize)
    requires
        gi < m.rows.len(),
        ci < m.rows[gi as int].comments.len(),
    ensures
        ({
            let (after, effects) = acted(m, TimelineAction::CommentClicked(gi, ci));
            let comment = m.rows[gi as int].comments[ci as int].event;
            &&& after == m
            &&& opened(effects) == seq![comment.url]
            &&& comment.read ==> marked(effects).len() == 0
            &&& !comment.read ==> marked(effects) == seq![comment.id] && effects[0]
                == TimelineEffect::Send(Command::MarkRead { id: comment.id })
            &&& effects.len() == if comment.read {
                2int
            } else {
                3
            }
            &&& effects[effects.len() - 2] == TimelineEffect::Open(comment.url)
            &&& effects.last() is Load
        }),
{
    let e = m.rows[gi as int].comments[ci as int].event;
    let effects = acted(m, TimelineAction::CommentClicked(gi, ci)).1;
    reveal_with_fuel(opened, 4);
    reveal_with_fuel(marked, 4);
    let send = TimelineEffect::Send(Command::MarkRead { id: e.id });
    assert(seq![send].drop_last() =~= Seq::empty());
    if e.read {
        assert(effects.drop_last() =~= seq![TimelineEffect::Open(e.url)]);
        assert(seq![TimelineEffect::Open(e.url)].drop_last() =~= Seq::empty());
    } else {
        assert(effects.drop_last() =~= seq![send, TimelineEffect::Open(e.url)]);
        assert(seq![send, TimelineEffect::Open(e.url)].drop_last() =~= seq![send]);
        assert(marked(effects) =~= seq![e.id]);
    }
    assert(opened(effects) =~= seq![e.url]);
}

/// A click to mark a row as read marks the parent of that row, then each of its comments in their
/// order, and loads; it opens nothing and changes nothing that is shown.
pub proof fn mark_read_marks_the_clicked_row(m: TimelineModel, gi: usize)
    requires
        gi < m.rows.len(),
    ensures
        ({
            let (after, effects) = acted(m, TimelineAction::ParentMarkReadClicked(gi));
            let row = m.rows[gi as int];
            &&& after == m
            &&& effects.len() == row.comments.len() + 2
            &&& effects[0] == TimelineEffect::Send(Command::MarkRead { id: row.parent.id })
            &&& forall|ci: int|
                0 <= ci < row.comments.len() ==> effects[ci + 1] == TimelineEffect::Send(
                    Command::MarkRead { id: (#[trigger] row.comments[ci]).event.id },
                )
            &&& effects.last() is Load
        }),
{
}

/// A click on a row or a comment that is not there does nothing.
pub proof fn clicks_beside_the_rows_do_nothing(m: TimelineModel, gi: usize, ci: usize)
    ensures
        gi >= m.rows.len() ==> {
            &&& acted(m, TimelineAction::ParentOpenClicked(gi)).0 == m
            &&& acted(m, TimelineAction::ParentOpenClicked(gi)).1.len() == 0
            &&& acted(m, TimelineAction::ParentMarkReadClicked(gi)).0 == m
            &&& acted(m, TimelineAction::ParentMarkReadClicked(gi)).1.len() == 0
            &&& acted(m, TimelineAction::ToggleComments(gi)).0 == m
            &&& acted(m, TimelineAction::ToggleComments(gi)).1.len() == 0
        },
        gi >= m.rows.len() || ci >= m.rows[gi as int].comments.len() ==> {
            &&& acted(m, TimelineAction::CommentClicked(gi, ci)).0 == m
            &&& acted(m, TimelineAction::CommentClicked(gi, ci)).1.len() == 0
        },
{
}

/// A click on a row's toggle shows the row's comments, or hides them where they were shown. The
/// other rows, the row's own parent and comments, and all else stay as they are, and nothing is
/// to be done.
pub proof fn toggle_changes_one_row(m: TimelineModel, gi: usize)
    requires
        gi < m.rows.len(),
    ensures
        ({
            let (after, effects) = acted(m, TimelineAction::ToggleComments(gi));
            let row = m.rows[gi as int];
            let new_row = after.rows[gi as int];
            &&& effects.len() == 0
            &&& after.rows.len() == m.rows.len()
            &&& forall|i: int|
                0 <= i < m.rows.len() && i != gi ==> #[trigger] after.rows[i] == m.rows[i]
            &&& new_row.expanded == !row.expanded
            &&& new_row.parent == row.parent
            &&& new_row.comments == row.comments
            &&& new_row.class == row.class
            &&& new_row.mark_read_class == row.mark_read_class
            &&& new_row.has_toggle == row.has_toggle
            &&& after.loaded_events == m.loaded_events
            &&& after.filter_mode == m.filter_mode
            &&& after.filter_all_flavor == m.filter_all_flavor
            &&& after.filter_unread_flavor == m.filter_unread_flavor
            &&& after.search_text == m.search_text
            &&& after.status == m.status
            &&& after.refreshing == m.refreshing
            &&& after.loaded == m.loaded
        }),
{
}

/// A refresh has the backend poll, waits half a second, loads, and then ends; until then the
/// button is disabled, and nothing else changes.
pub proof fn refresh_polls_and_loads(m: TimelineModel)
    ensures
        ({
            let (after, effects) = acted(m, TimelineAction::Refresh);
            &&& after.refreshing
            &&& after == (TimelineModel { refreshing: after.refreshing, ..m })
            &&& effects.len() == 4
            &&& effects[0] == TimelineEffect::Send(Command::PollNow)
            &&& effects[1] matches TimelineEffect::Wait(millis) && 2 * millis == 1000
            &&& effects[2] is Load
            &&& effects[3] is EndRefresh
        }),
{
}

/// To choose a filter that is not on turns it on, has its button stand out instead of the other,
/// and loads. The rows stay until the load is done.
pub proof fn other_filter_is_turned_on(m: TimelineModel)
    ensures
        m.filter_mode is Unread ==> {
            let (after, effects) = acted(m, TimelineAction::FilterAll);
            &&& after.filter_mode is All
            &&& after.filter_all_flavor is Primary
            &&& after.filter_unread_flavor is Secondary
            &&& effects == seq![TimelineEffect::Load]
            &&& after.rows == m.rows
            &&& after.loaded_events == m.loaded_events
            &&& after.search_text == m.search_text
            &&& after.status == m.status
            &&& after.refreshing == m.refreshing
            &&& after.loaded == m.loaded
        },
        m.filter_mode is All ==> {
            let (after, effects) = acted(m, TimelineAction::FilterUnread);
            &&& after.filter_mode is Unread
            &&& after.filter_all_flavor is Secondary
            &&& after.filter_unread_flavor is Primary
            &&& effects == seq![TimelineEffect::Load]
            &&& after.rows == m.rows
            &&& after.loaded_events == m.loaded_events
            &&& after.search_text == m.search_text
            &&& after.status == m.status
            &&& after.refreshing == m.refreshing
            &&& after.loaded == m.loaded
        },
{
}

/// To mark all as read sends that for every repo, and loads. News from the backend only load.
/// Neither changes what is shown.
pub proof fn reloading_keeps_the_view(m: TimelineModel)
    ensures
        ({
            let (after, effects) = acted(m, TimelineAction::MarkAllRead);
            &&& after == m
            &&& effects.len() == 2
            &&& effects[0] == TimelineEffect::Send(Command::MarkAllRead { repo: None })
            &&& effects[1] is Load
        }),
        ({
            let (after, effects) = acted(m, TimelineAction::NewServerEvents);
            &&& after == m
            &&& effects.len() == 1
            &&& effects[0] is Load
        }),
{
}

/// A new search text is kept, and the rows are those of the loaded events that it shows. Where it
/// shows none, there are no rows, and a message says so; otherwise no message is visible. Nothing
/// is loaded. The text that is there already changes nothing.
pub proof fn a_search_makes_the_rows_anew(m: TimelineModel, text: String)
    ensures
        ({
            let (after, effects) = acted(m, TimelineAction::SearchTextChanged(text));
            let found_events = filtered(m.loaded_events, m.filter_mode, text@);
            &&& effects.len() == 0
            &&& after.search_text == text@
            &&& after.loaded_events == m.loaded_events
            &&& after.filter_mode == m.filter_mode
            &&& after.filter_all_flavor == m.filter_all_flavor
            &&& after.filter_unread_flavor == m.filter_unread_flavor
            &&& after.refreshing == m.refreshing
            &&& after.loaded == m.loaded
            &&& text@ == m.search_text ==> after == m
            &&& text@ != m.search_text && found_events.len() == 0 ==> after.rows.len() == 0
                && after.status.is_visible && after.status.flavor is Info && (text@.len() > 0
                ==> after.status.text == "No events match your search."@)
            &&& text@ != m.search_text && found_events.len() > 0 ==> !after.status.is_visible
                && after.rows.len() == crate::groups::grouped(found_events).len() && (forall|i: int|
                0 <= i < after.rows.len() ==> #[trigger] after.rows[i] == crate::rows::group_row(
                    crate::groups::grouped(found_events)[i],
                ))
        }),
{
}

/// Events that were loaded replace those that were there, and end the search. The rows are those
/// of the events that the mode admits. Where it admits none, a message says what there is none of.
pub proof fn a_load_makes_the_rows_anew(m: TimelineModel, events: Vec<GhEvent>)
    ensures
        ({
            let after = load_finished(m, Ok(Response::Events(events)));
            let admitted = filtered(events@, m.filter_mode, Seq::empty());
            &&& after.loaded
            &&& after.loaded_events == events@
            &&& after.search_text.len() == 0
            &&& after.filter_mode == m.filter_mode
            &&& after.filter_all_flavor == m.filter_all_flavor
            &&& after.filter_unread_flavor == m.filter_unread_flavor
            &&& after.refreshing == m.refreshing
            &&& after.status.is_visible <==> admitted.len() == 0
            &&& admitted.len() == 0 ==> after.rows.len() == 0 && after.status.flavor is Info
            &&& admitted.len() == 0 && m.filter_mode is Unread ==> after.status.text
                == "No unread events."@
            &&& admitted.len() == 0 && m.filter_mode is All ==> after.status.text
                == "No events yet. Configure subscriptions in Settings."@
            &&& after.rows.len() == crate::groups::grouped(admitted).len()
            &&& forall|i: int|
                0 <= i < after.rows.len() ==> #[trigger] after.rows[i] == crate::rows::group_row(
                    crate::groups::grouped(admitted)[i],
                )
        }),
{
    let admitted = filtered(events@, m.filter_mode, Seq::empty());
    crate::groups::one_group_per_key(admitted, (Seq::empty(), 0));
}

/// An answer other than events is an error of the load, whose text names what was expected; the
/// view keeps all but the message.
pub proof fn other_answers_are_load_errors(m: TimelineModel, response: Response)
    requires
        !(response is Events),
    ensures
        ({
            let after = load_finished(m, Ok(response));
            &&& after.status.is_visible
            &&& after.status.flavor is Danger
            &&& after == (TimelineModel { status: after.status, ..m })
            &&& exists|rest: Seq<char>|
                after.status.text == #[trigger] ("Error loading events: "@ + rest)
        }),
{
    let message = crate::wire::unexpected_response("Events"@, response).message;
    assert(load_finished(m, Ok(response)).status.text == "Error loading events: "@ + message);
}

/// A load asks for the events of all repos, two hundred at most, and for unread ones alone exactly
/// in unread mode.
pub proof fn a_load_asks_for_the_mode(mode: FilterMode)
    ensures
        load_request(mode) matches Command::GetEvents(filter) && filter.repo is None
            && filter.limit == Some(200u32) && (filter.unread_only <==> mode is Unread),
{
}

/// A new timeline has loaded nothing and shows all, without a search.
pub proof fn a_new_timeline_is_empty()
    ensures
        !initial().loaded,
        !initial().refreshing,
        initial().rows.len() == 0,
        initial().loaded_events.len() == 0,
        initial().search_text.len() == 0,
        initial().filter_mode is All,
        initial().filter_all_flavor is Primary,
        initial().filter_unread_flavor is Secondary,
        initial().status.is_visible,
        initial().status.flavor is Info,
        initial().status.text == "Loading events..."@,
{
}

/// A refresh that ended leaves the button as it was before, and everything else as the load left
/// it.
pub proof fn refresh_takes_back_its_beginning(m: TimelineModel)
    ensures
        !refresh_ended(m).refreshing,
        !m.refreshing ==> refresh_ended(acted(m, TimelineAction::Refresh).0) == m,
        refresh_ended(m) == (TimelineModel { refreshing: refresh_ended(m).refreshing, ..m }),
{
}

/// A timeline that has loaded nothing subscribes to what the backend pushes, and then loads. One
/// that has loaded does neither again, nor does a new one that has taken in a load.
pub proof fn a_timeline_starts_once(m: TimelineModel, events: Vec<GhEvent>)
    ensures
        m.loaded ==> first_effects(m).len() == 0,
        !m.loaded ==> first_effects(m).len() == 2 && first_effects(m)[0] is Subscribe
            && first_effects(m)[1] is Load,
        first_effects(initial()).len() == 2,
        first_effects(load_finished(m, Ok(Response::Events(events)))).len() == 0,
{
}

/// What a timeline loads follows its mode: events of all repos, two hundred at most, and in unread
/// mode unread ones alone. It subscribes and loads first, unless it has loaded before.
pub proof fn loads_follow_the_view(
    view: &TimelineView,
    command: Command,
    effects: Vec<TimelineEffect>,
)
    requires
        call_ensures(TimelineView::load_command, (view,), command),
        call_ensures(TimelineView::start, (view,), effects),
    ensures
        command matches Command::GetEvents(filter) && filter.repo is None && filter.limit
            == Some(200u32) && (filter.unread_only <==> view.filter_mode is Unread),
        view.loaded <==> effects@.len() == 0,
        !view.loaded ==> effects@.len() == 2 && effects@[0] is Subscribe && effects@[1] is Load,
{
}

/// An event is found by a text that occurs in its title, author, repo and number, written one
/// behind the other, and by no text at all.
pub proof fn matches_are_occurrences(
    needle: &str,
    title: &str,
    author: &str,
    repo: &str,
    number: u64,
    matched: bool,
)
    requires
        call_ensures(matches_search, (needle, title, author, repo, number), matched),
    ensures
        matched <==> exists|before: Seq<char>, behind: Seq<char>| #[trigger]
            (before + needle@ + behind) == title@ + " "@ + author@ + " "@ + repo@ + " #"@
                + crate::text::decimal(number as nat),
{
    let text = title@ + " "@ + author@ + " "@ + repo@ + " #"@ + crate::text::decimal(number as nat);
    crate::text::occurrence_is_a_part(needle@, text);
    if needle@.len() == 0 {
        assert(Seq::empty() + needle@ + text =~= text);
    }
}

/// What a view shows are its fields: each row in its place, the loaded events, the texts and the
/// states.
pub proof fn timelines_are_their_fields(view: TimelineView)
    ensures
        view@.status.text == view.status_alert.text@,
        view@.status.flavor == view.status_alert.flavor,
        view@.status.is_visible == view.status_alert.is_visible,
        view@.refreshing == view.refreshing,
        view@.filter_all_flavor == view.filter_all_flavor,
        view@.filter_unread_flavor == view.filter_unread_flavor,
        view@.loaded_events == view.loaded_events@,
        view@.filter_mode == view.filter_mode,
        view@.search_text == view.search_text@,
        view@.loaded == view.loaded,
        view@.rows.len() == view.group_rows@.len(),
        forall|i: int|
            0 <= i < view.group_rows@.len() ==> {
                let row = #[trigger] view@.rows[i];
                &&& row.parent == view.group_rows@[i].parent_data
                &&& row.expanded == view.group_rows@[i].expanded
                &&& row.comments.len() == view.group_rows@[i].comment_rows@.len()
                &&& forall|j: int|
                    0 <= j < row.comments.len() ==> (#[trigger] row.comments[j]).event
                        == view.group_rows@[i].comment_rows@[j].event_data
            },
{
}

/// Every action but a new search can be carried out, and so can every load that brings no events.
/// A new search, or a load of events, can be carried out exactly if each group that it shows can
/// be shown; where no body is longer than a hundred bytes, it always can.
pub proof fn what_can_be_carried_out(
    m: TimelineModel,
    action: TimelineAction,
    result: Result<Response, AppError>,
    events: Seq<GhEvent>,
    mode: FilterMode,
    search: Seq<char>,
)
    ensures
        !(action is SearchTextChanged) ==> can_act(m, action),
        action matches TimelineAction::SearchTextChanged(text) ==> (can_act(m, action) <==> text@
            == m.search_text || can_present(m.loaded_events, m.filter_mode, text@)),
        result is Err || !(result->Ok_0 is Events) ==> can_finish(m, result),
        result matches Ok(Response::Events(loaded)) ==> (can_finish(m, result) <==> can_present(
            loaded@,
            m.filter_mode,
            Seq::empty(),
        )),
        (forall|i: int|
            0 <= i < events.len() ==> vstd::utf8::encode_utf8((#[trigger] events[i]).body@).len()
                <= 100) ==> can_present(events, mode, search),
        can_present(events, mode, search) <==> forall|i: int|
            0 <= i < crate::groups::grouped(filtered(events, mode, search)).len()
                ==> crate::rows::can_show(
                #[trigger] crate::groups::grouped(filtered(events, mode, search))[i],
            ),
{
    if forall|i: int|
        0 <= i < events.len() ==> vstd::utf8::encode_utf8((#[trigger] events[i]).body@).len()
            <= 100 {
        let shown = filtered(events, mode, search);
        let p = passes(mode, needle_of(search));
        assert forall|i: int| 0 <= i < shown.len() implies vstd::utf8::encode_utf8(
            (#[trigger] shown[i]).body@,
        ).len() <= 100 by {
            assert(shown.contains(shown[i]));
            events.lemma_filter_contains_rev(p, shown[i]);
            let k = choose|k: int| 0 <= k < events.len() && events[k] == shown[i];
            assert(events[k].body@ == shown[i].body@);
        }
        assert forall|i: int|
            0 <= i < crate::groups::grouped(shown).len() implies crate::rows::can_show(
            #[trigger] crate::groups::grouped(shown)[i],
        ) by {
            short_groups_can_be_shown(shown, i);
        }
    }
}

proof fn short_groups_can_be_shown(shown: Seq<GhEvent>, at: int)
    requires
        0 <= at < crate::groups::grouped(shown).len(),
        forall|i: int|
            0 <= i < shown.len() ==> vstd::utf8::encode_utf8((#[trigger] shown[i]).body@).len()
                <= 100,
    ensures
        crate::rows::can_show(crate::groups::grouped(shown)[at]),
{
    let g = crate::groups::grouped(shown)[at];
    crate::groups::parents_come_first(shown, at);
    assert forall|i: int| 0 <= i < g.comments.len() implies vstd::utf8::encode_utf8(
        (#[trigger] g.comments[i]).body@,
    ).len() <= 100 by {
        let c = g.comments[i];
        assert(g.comments.contains(c));
        grouped_comments(shown, at, c);
        let k = choose|k: int| 0 <= k < shown.len() && shown[k] == c;
        assert(shown[k].body@ == c.body@);
    }
}

/// One more row can be clicked in two places more, and where it has comments, also on its toggle
/// and on each of them.
pub proof fn rows_can_be_clicked(rows: Seq<crate::rows::GroupRowModel>, count: int)
    requires
        0 <= count < rows.len(),
    ensures
        targets(rows, 0).len() == 0,
        targets(rows, count + 1).len() == targets(rows, count).len() + 2 + (
        if rows[count].comments.len() > 0 {
            1 + rows[count].comments.len()
        } else {
            0
        }),
        targets(rows, count + 1).take(targets(rows, count).len() as int) == targets(rows, count),
{
    assert(targets(rows, count + 1).take(targets(rows, count).len() as int) =~= targets(
        rows,
        count,
    ));
}

/// Whatever is tried either is carried out as a whole, or changes nothing. Everything but a new
/// search is carried out, and so is every load that brings no events; a search or a load without
/// a body of more than a hundred bytes is carried out too.
pub proof fn attempts_are_carried_out_or_change_nothing(
    m: TimelineModel,
    action: TimelineAction,
    result: Result<Response, AppError>,
)
    ensures
        act_tried(m, action).1 is None ==> act_tried(m, action).0 == m && action
            is SearchTextChanged,
        act_tried(m, action).1 matches Some(effects) ==> (act_tried(m, action).0, effects) == acted(
            m,
            action,
        ),
        !load_tried(m, result).1 ==> load_tried(m, result).0 == m && result is Ok && result->Ok_0
            is Events,
        load_tried(m, result).1 ==> load_tried(m, result).0 == load_finished(m, result),
        (forall|i: int|
            0 <= i < m.loaded_events.len() ==> vstd::utf8::encode_utf8(
                (#[trigger] m.loaded_events[i]).body@,
            ).len() <= 100) ==> act_tried(m, action).1 is Some,
        result matches Ok(Response::Events(loaded)) ==> (forall|i: int|
            0 <= i < loaded@.len() ==> vstd::utf8::encode_utf8((#[trigger] loaded@[i]).body@).len()
                <= 100) ==> load_tried(m, result).1,
{
    let search = match action {
        TimelineAction::SearchTextChanged(text) => text@,
        _ => Seq::empty(),
    };
    let loaded = match result {
        Ok(Response::Events(loaded)) => loaded@,
        _ => Seq::empty(),
    };
    what_can_be_carried_out(m, action, result, m.loaded_events, m.filter_mode, search);
    what_can_be_carried_out(m, action, result, loaded, m.filter_mode, Seq::empty());
}

/// Whether the search text in lower case occurs in an event's title, author, repo and number,
/// written one behind the other, in lower case.
pub open spec fn is_match(search: Seq<char>, e: GhEvent) -> bool {
    crate::text::occurs_in(
        crate::text::lowercase(search),
        crate::text::lowercase(e.title@) + " "@ + crate::text::lowercase(e.author@) + " "@
            + crate::text::lowercase(e.repo@) + " #"@ + crate::text::decimal(e.number as nat),
    )
}

/// After a new search every row shows a loaded event that matches it and that the mode admits, and
/// so does every comment in a row. Each loaded event that matches and is admitted has a row of its
/// repo and number, in which it stands if it is a comment.
pub proof fn rows_are_what_the_search_found(m: TimelineModel, text: String, e: GhEvent)
    requires
        text@.len() > 0,
        text@ != m.search_text,
    ensures
        ({
            let rows = acted(m, TimelineAction::SearchTextChanged(text)).0.rows;
            &&& forall|i: int|
                0 <= i < rows.len() ==> is_match(text@, (#[trigger] rows[i]).parent)
                    && m.loaded_events.contains(rows[i].parent) && (m.filter_mode is Unread
                    ==> !rows[i].parent.read)
            &&& forall|i: int, j: int|
                0 <= i < rows.len() && 0 <= j < rows[i].comments.len() ==> is_match(
                    text@,
                    (#[trigger] rows[i].comments[j]).event,
                ) && m.loaded_events.contains(rows[i].comments[j].event) && (m.filter_mode is Unread
                    ==> !rows[i].comments[j].event.read)
            &&& m.loaded_events.contains(e) && is_match(text@, e) && (m.filter_mode is Unread
                ==> !e.read) ==> exists|i: int|
                0 <= i < rows.len() && (#[trigger] rows[i]).parent.repo@ == e.repo@
                    && rows[i].parent.number == e.number && (e.kind == 2 ==> exists|j: int|
                    0 <= j < rows[i].comments.len() && (#[trigger] rows[i].comments[j]).event == e)
        }),
{
    let rows = acted(m, TimelineAction::SearchTextChanged(text)).0.rows;
    let shown = filtered(m.loaded_events, m.filter_mode, text@);
    let groups = crate::groups::grouped(shown);
    if shown.len() == 0 {
        search_shows_what_matches(m.loaded_events, m.filter_mode, text@, e);
    } else {
        assert(rows =~= rows_of(groups));
        assert forall|i: int| 0 <= i < rows.len() implies is_match(
            text@,
            (#[trigger] rows[i]).parent,
        ) && m.loaded_events.contains(rows[i].parent) && (m.filter_mode is Unread
            ==> !rows[i].parent.read) by {
            crate::groups::parents_come_first(shown, i);
            assert(shown.contains(groups[i].parent));
            search_shows_what_matches(m.loaded_events, m.filter_mode, text@, groups[i].parent);
        }
        assert forall|i: int, j: int|
            0 <= i < rows.len() && 0 <= j < rows[i].comments.len() implies is_match(
            text@,
            (#[trigger] rows[i].comments[j]).event,
        ) && m.loaded_events.contains(rows[i].comments[j].event) && (m.filter_mode is Unread
            ==> !rows[i].comments[j].event.read) by {
            let c = groups[i].comments[j];
            assert(groups[i].comments.contains(c));
            grouped_comments(shown, i, c);
            search_shows_what_matches(m.loaded_events, m.filter_mode, text@, c);
        }
        search_shows_what_matches(m.loaded_events, m.filter_mode, text@, e);
        if shown.contains(e) {
            let k = choose|k: int| 0 <= k < shown.len() && shown[k] == e;
            crate::groups::every_event_has_its_group(shown, k);
            let i = choose|i: int|
                0 <= i < groups.len() && (#[trigger] groups[i]).parent.repo@ == shown[k].repo@
                    && groups[i].parent.number == shown[k].number;
            assert(rows[i].parent.repo@ == e.repo@);
            if e.kind == 2 {
                grouped_comments(shown, i, e);
                let j = choose|j: int|
                    0 <= j < groups[i].comments.len() && groups[i].comments[j] == e;
                assert(rows[i].comments[j].event == e);
            }
        }
    }
}

proof fn grouped_comments(shown: Seq<GhEvent>, at: int, c: GhEvent)
    requires
        0 <= at < crate::groups::grouped(shown).len(),
    ensures
        ({
            let g = crate::groups::grouped(shown)[at];
            g.comments.contains(c) <==> shown.contains(c) && c.kind == 2 && c.repo@
                == g.parent.repo@ && c.number == g.parent.number
        }),
{
    broadcast use vstd::seq_lib::group_to_multiset_ensures;

    let g = crate::groups::grouped(shown)[at];
    crate::groups::comments_stand_under_their_parent(shown, at, Seq::empty());
    let p = crate::groups::belongs_to(g.parent.repo@, g.parent.number);
    let of = crate::groups::events_of(shown, g.parent.repo@, g.parent.number);
    let q = |e: GhEvent| e.kind == 2;
    let own = of.filter(q);
    assert(g.comments.to_multiset().count(c) == own.to_multiset().count(c));
    assert(g.comments.contains(c) <==> own.contains(c));
    if own.contains(c) {
        of.lemma_filter_contains_rev(q, c);
        let i = choose|i: int| 0 <= i < own.len() && own[i] == c;
        of.lemma_filter_pred(q, i);
        shown.lemma_filter_contains_rev(p, c);
        let j = choose|j: int| 0 <= j < of.len() && of[j] == c;
        shown.lemma_filter_pred(p, j);
    }
    if shown.contains(c) && p(c) && q(c) {
        let i = choose|i: int| 0 <= i < shown.len() && shown[i] == c;
        shown.lemma_filter_contains(p, i);
        let j = choose|j: int| 0 <= j < of.len() && of[j] == c;
        of.lemma_filter_contains(q, j);
    }
}

/// The state that every action and every load keeps: of the two filter buttons just the one of the
/// mode stands out, and each row's toggle and comments show whether it is expanded.
pub proof fn views_show_their_state(m: TimelineModel)
    ensures
        timeline_ok(m) <==> {
            &&& m.filter_mode is All ==> m.filter_all_flavor is Primary && m.filter_unread_flavor
                is Secondary
            &&& m.filter_mode is Unread ==> m.filter_all_flavor is Secondary
                && m.filter_unread_flavor is Primary
            &&& forall|i: int|
                0 <= i < m.rows.len() ==> {
                    let row = #[trigger] m.rows[i];
                    &&& row.has_toggle <==> row.comments.len() > 0
                    &&& row.comments.len() == 0 ==> row.toggle_text.len() == 0
                    &&& row.comments.len() > 0 ==> row.toggle_text == crate::rows::comment_label(
                        row.comments.len(),
                    ) + seq![
                        ' ',
                        if row.expanded {
                            '\u{25BC}'
                        } else {
                            '\u{25B6}'
                        },
                    ]
                    &&& row.comments_class == if row.expanded {
                        "event-group-comments expanded"@
                    } else {
                        "event-group-comments"@
                    }
                }
        },
{
    reveal_strlit(" \u{25B6}");
    reveal_strlit(" \u{25BC}");
    assert(" \u{25B6}"@ =~= seq![' ', '\u{25B6}']);
    assert(" \u{25BC}"@ =~= seq![' ', '\u{25BC}']);
    assert forall|i: int| 0 <= i < m.rows.len() && (#[trigger] m.rows[i]).comments.len()
        == 0 && m.rows[i].toggle_text.len() == 0 implies m.rows[i].toggle_text
        == crate::rows::toggle_label(0, m.rows[i].expanded) by {
        assert(m.rows[i].toggle_text =~= Seq::empty());
    }
}

} // verus!
