//! The backend's answers to commands, and what it announces after a poll cycle.

use crate::config::{to_app_config, RawConfig};
use crate::store::StoreError;
use crate::wire::{AppError, Command, ErrorKind, EventFilter, GhEvent, Response, ServerEvent};
use vstd::prelude::*;

verus! {

/// What the store is asked for.
#[derive(Debug)]
pub enum StoreRequest {
    GetEvents(EventFilter),
    GetEvent { id: String },
    MarkRead { id: String },
    MarkAllRead { repo: Option<String> },
}

/// What the backend does about a command.
#[derive(Debug)]
pub enum CommandStep {
    /// Answer at once.
    Answer(Response),
    /// Refuse at once.
    Refuse(AppError),
    /// Ask the store, and answer with what comes back.
    Ask(StoreRequest),
    /// Wake the poll task, then answer.
    Wake(Response),
}

/// Decides what to do about a command.
pub fn handle_command(
    cmd: Command,
    config: &RawConfig,
    env_token: Option<String>,
    has_poller: bool,
) -> (r: CommandStep)
    ensures
        match cmd {
            Command::GetEvents(filter) => r == CommandStep::Ask(StoreRequest::GetEvents(filter)),
            Command::GetEvent { id } => r == CommandStep::Ask(StoreRequest::GetEvent { id }),
            Command::GetConfig => r matches CommandStep::Answer(Response::Config(c)) && c@
                == crate::config::shown_config(config@, crate::wire::option_text(env_token)),
            Command::PollNow => if has_poller {
                r == CommandStep::Wake(Response::Done)
            } else {
                r matches CommandStep::Refuse(e) && e@ == (crate::wire::ErrorModel {
                    kind: ErrorKind::Config,
                    message: "No GitHub token configured"@,
                })
            },
            Command::MarkRead { id } => r == CommandStep::Ask(StoreRequest::MarkRead { id }),
            Command::MarkAllRead { repo } => r == CommandStep::Ask(
                StoreRequest::MarkAllRead { repo },
            ),
        },
{
    match cmd {
        Command::GetEvents(filter) => CommandStep::Ask(StoreRequest::GetEvents(filter)),
        Command::GetEvent { id } => CommandStep::Ask(StoreRequest::GetEvent { id }),
        Command::GetConfig => CommandStep::Answer(
            Response::Config(to_app_config(config, env_token)),
        ),
        Command::PollNow => {
            if !has_poller {
                return CommandStep::Refuse(
                    AppError::new(ErrorKind::Config, "No GitHub token configured".to_owned()),
                );
            }
            CommandStep::Wake(Response::Done)
        },
        Command::MarkRead { id } => CommandStep::Ask(StoreRequest::MarkRead { id }),
        Command::MarkAllRead { repo } => CommandStep::Ask(StoreRequest::MarkAllRead { repo }),
    }
}

/// The application error for an error of the store.
pub open spec fn database_error(e: StoreError) -> crate::wire::ErrorModel {
    crate::wire::ErrorModel { kind: ErrorKind::Database, message: e.0@ }
}

fn store_failed(e: StoreError) -> (r: AppError)
    ensures
        r@ == database_error(e),
{
    AppError::new(ErrorKind::Database, e.to_string())
}

/// The answer to a request for events.
pub fn answer_events(reply: Result<Vec<GhEvent>, StoreError>) -> (r: Result<Response, AppError>)
    ensures
        match reply {
            Ok(events) => r == Ok::<Response, AppError>(Response::Events(events)),
            Err(e) => r matches Err(app) && app@ == database_error(e),
        },
{
    match reply {
        Ok(events) => Ok(Response::Events(events)),
        Err(e) => Err(store_failed(e)),
    }
}

/// The answer to a request for a single event.
pub fn answer_event(reply: Result<Option<GhEvent>, StoreError>) -> (r: Result<Response, AppError>)
    ensures
        match reply {
            Ok(event) => r == Ok::<Response, AppError>(Response::Event(event)),
            Err(e) => r matches Err(app) && app@ == database_error(e),
        },
{
    match reply {
        Ok(event) => Ok(Response::Event(event)),
        Err(e) => Err(store_failed(e)),
    }
}

/// The answer to a request that changes the store.
pub fn answer_done(reply: Result<(), StoreError>) -> (r: Result<Response, AppError>)
    ensures
        match reply {
            Ok(_) => r == Ok::<Response, AppError>(Response::Done),
            Err(e) => r matches Err(app) && app@ == database_error(e),
        },
{
    match reply {
        Ok(_) => Ok(Response::Done),
        Err(e) => Err(store_failed(e)),
    }
}

/// Whether storing an event added it.
pub open spec fn added(outcome: Result<bool, StoreError>) -> bool {
    outcome matches Ok(new) && new
}

/// How many events were added.
pub open spec fn added_count(outcomes: Seq<Result<bool, StoreError>>) -> nat {
    outcomes.filter(|o: Result<bool, StoreError>| added(o)).len()
}

proof fn added_count_grows(outcomes: Seq<Result<bool, StoreError>>, count: int)
    requires
        0 <= count <= outcomes.len(),
    ensures
        added_count(outcomes.take(count)) <= added_count(outcomes),
    decreases outcomes.len() - count,
{
    if count < outcomes.len() {
        let pred = |o: Result<bool, StoreError>| added(o);
        added_count_grows(outcomes, count + 1);
        outcomes.take(count).lemma_filter_push(outcomes[count], pred);
        assert(outcomes.take(count + 1) =~= outcomes.take(count).push(outcomes[count]));
    } else {
        assert(outcomes.take(count) =~= outcomes);
    }
}

/// What to announce after the events of a poll cycle were stored: how many are new, if any.
pub fn announcement(outcomes: &Vec<Result<bool, StoreError>>) -> (r: Option<ServerEvent>)
    requires
        added_count(outcomes@) <= u32::MAX,
    ensures
        r == if added_count(outcomes@) > 0 {
            Some(ServerEvent::NewEvents { count: added_count(outcomes@) as u32 })
        } else {
            None
        },
{
    let ghost pred = |o: Result<bool, StoreError>| added(o);
    let mut new_count: u32 = 0;
    let mut i: usize = 0;
    assert(outcomes@.take(0).filter(pred) =~= Seq::empty()) by {
        reveal(Seq::filter);
    }
    while i < outcomes.len()
        invariant
            i <= outcomes.len(),
            added_count(outcomes@) <= u32::MAX,
            pred == |o: Result<bool, StoreError>| added(o),
            new_count == outcomes@.take(i as int).filter(pred).len(),
        decreases outcomes.len() - i,
    {
        proof {
            added_count_grows(outcomes@, i + 1);
            outcomes@.take(i as int).lemma_filter_push(outcomes@[i as int], pred);
            assert(outcomes@.take(i + 1) =~= outcomes@.take(i as int).push(outcomes@[i as int]));
        }
        match &outcomes[i] {
            Ok(new) => {
                if *new {
                    new_count = new_count + 1;
                }
            },
            Err(_) => {},
        }
        i = i + 1;
    }
    assert(outcomes@.take(i as int) =~= outcomes@);
    if new_count > 0 {
        Some(ServerEvent::NewEvents { count: new_count })
    } else {
        None
    }
}

/// Each command is dealt with in its own way, and what it holds goes along unchanged. Commands for
/// the store are asked of it; the configuration is answered at once; a poll wakes the poll task,
/// or is refused where there is none because no token is configured.
pub proof fn commands_are_dealt_with(
    cmd: Command,
    config: &RawConfig,
    env_token: Option<String>,
    has_poller: bool,
    step: CommandStep,
)
    requires
        call_ensures(handle_command, (cmd, config, env_token, has_poller), step),
    ensures
        cmd matches Command::GetEvents(filter) ==> step == CommandStep::Ask(
            StoreRequest::GetEvents(filter),
        ),
        cmd matches Command::GetEvent { id } ==> step == CommandStep::Ask(
            StoreRequest::GetEvent { id },
        ),
        cmd matches Command::MarkRead { id } ==> step == CommandStep::Ask(
            StoreRequest::MarkRead { id },
        ),
        cmd matches Command::MarkAllRead { repo } ==> step == CommandStep::Ask(
            StoreRequest::MarkAllRead { repo },
        ),
        cmd is GetConfig <==> step is Answer,
        step matches CommandStep::Answer(response) ==> {
            &&& response is Config
            &&& response->Config_0.poll_interval_secs == config.github.poll_interval_secs
            &&& response->Config_0.subscriptions@.len() == config.github.subscriptions@.len()
            &&& response->Config_0.has_token <==> config.github.token is Some || env_token is Some
        },
        cmd is PollNow && has_poller <==> step is Wake,
        step matches CommandStep::Wake(response) ==> response is Done,
        cmd is PollNow && !has_poller <==> step is Refuse,
        step matches CommandStep::Refuse(e) ==> e.kind is Config && e.message@
            == "No GitHub token configured"@,
{
    if cmd is GetConfig {
        let seen = step->Answer_0->Config_0;
        crate::config::configurations_are_shown_whole(
            config@,
            crate::wire::option_text(env_token),
        );
        assert(seen@.subscriptions.len() == config@.subscriptions.len());
    }
}

/// What the store brings is answered as it is, and an error of the store becomes one of the
/// database with the same words.
pub proof fn answers_are_what_the_store_brings(
    events: Result<Vec<GhEvent>, StoreError>,
    event: Result<Option<GhEvent>, StoreError>,
    done: Result<(), StoreError>,
    a: Result<Response, AppError>,
    b: Result<Response, AppError>,
    c: Result<Response, AppError>,
)
    requires
        call_ensures(answer_events, (events,), a),
        call_ensures(answer_event, (event,), b),
        call_ensures(answer_done, (done,), c),
    ensures
        a is Ok <==> events is Ok,
        events is Ok ==> a->Ok_0 == Response::Events(events->Ok_0),
        events is Err ==> a->Err_0.kind is Database && a->Err_0.message@ == events->Err_0.0@,
        b is Ok <==> event is Ok,
        event is Ok ==> b->Ok_0 == Response::Event(event->Ok_0),
        event is Err ==> b->Err_0.kind is Database && b->Err_0.message@ == event->Err_0.0@,
        c is Ok <==> done is Ok,
        done is Ok ==> c->Ok_0 is Done,
        done is Err ==> c->Err_0.kind is Database && c->Err_0.message@ == done->Err_0.0@,
{
}

/// An event counts as new exactly if it was stored without an error and was not there before; the
/// outcomes of one cycle count one by one.
pub proof fn new_events_are_counted(
    outcomes: Seq<Result<bool, StoreError>>,
    outcome: Result<bool, StoreError>,
)
    ensures
        added_count(Seq::empty()) == 0,
        added_count(outcomes.push(outcome)) == added_count(outcomes) + if outcome
            == Ok::<bool, StoreError>(true) {
            1int
        } else {
            0
        },
{
    reveal(Seq::filter);
    let pred = |o: Result<bool, StoreError>| added(o);
    outcomes.lemma_filter_push(outcome, pred);
}

/// What is announced is the number of new events; nothing is announced where there are none.
pub proof fn announcements_tell_the_number(
    outcomes: &Vec<Result<bool, StoreError>>,
    told: Option<ServerEvent>,
)
    requires
        added_count(outcomes@) <= u32::MAX,
        call_ensures(announcement, (outcomes,), told),
    ensures
        told is None <==> added_count(outcomes@) == 0,
        told matches Some(ServerEvent::NewEvents { count }) ==> count == added_count(outcomes@),
{
}

} // verus!
