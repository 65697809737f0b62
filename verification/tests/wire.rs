use liase::wire::{
    quoted_event_text, quoted_subscription_text, AppConfig, AppError, ErrorKind, EventFilter,
    EventKind, GhEvent, Response, Subscription, SubscriptionKind, UnknownEventKind,
};

fn kinds() -> Vec<EventKind> {
    vec![
        EventKind::NewIssue,
        EventKind::NewPullRequest,
        EventKind::NewComment,
        EventKind::IssueStateChange,
        EventKind::PRStateChange,
    ]
}

#[test]
fn kind_numbers_round_trip() {
    for (i, kind) in kinds().into_iter().enumerate() {
        assert_eq!(u32::from(kind), i as u32);
        assert_eq!(EventKind::try_from(i as u32), Ok(kind));
    }
}

#[test]
fn unknown_kind_is_refused() {
    assert_eq!(EventKind::try_from(5), Err(UnknownEventKind { value: 5 }));
    assert_eq!(
        EventKind::try_from(5).unwrap_err().to_string(),
        "5 is not an event. Expected 0-4 inclusive."
    );
    assert_eq!(
        EventKind::try_from(u32::MAX).unwrap_err().to_string(),
        "4294967295 is not an event. Expected 0-4 inclusive."
    );
}

#[test]
fn kind_labels_and_badges() {
    let labels: Vec<&str> = kinds().iter().map(|k| k.label()).collect();
    assert_eq!(labels, vec!["Issue", "PR", "Comment", "Issue", "PR"]);
    let badges: Vec<&str> = kinds().iter().map(|k| k.badge_class()).collect();
    assert_eq!(
        badges,
        vec![
            "bg-success",
            "bg-primary",
            "bg-secondary",
            "bg-warning text-dark",
            "bg-info text-dark",
        ]
    );
    assert_eq!(EventKind::NewComment.to_string(), "Comment");
}

#[test]
fn event_kind_of_event() {
    let event = GhEvent { kind: 2, ..GhEvent::default() };
    assert_eq!(event.kind(), Ok(EventKind::NewComment));
    let event = GhEvent { kind: 9, ..GhEvent::default() };
    assert_eq!(event.kind(), Err(UnknownEventKind { value: 9 }));
}

#[test]
fn subscription_kind_texts() {
    assert_eq!(SubscriptionKind::Org.to_string(), "org");
    assert_eq!(SubscriptionKind::Repo.to_string(), "repo");
}

#[test]
fn default_values_are_empty() {
    assert_eq!(
        EventFilter::default(),
        EventFilter { repo: None, unread_only: false, limit: None }
    );
    let event = GhEvent::default();
    assert_eq!(event.id, "");
    assert_eq!(event.kind, 0);
    assert!(!event.read);
    assert_eq!(event.clone(), event);
}

fn sample_config() -> AppConfig {
    AppConfig {
        poll_interval_secs: 30,
        subscriptions: vec![
            Subscription { kind: SubscriptionKind::Org, name: "zcash".to_string() },
            Subscription { kind: SubscriptionKind::Repo, name: "schell/\"x\"".to_string() },
        ],
        has_token: true,
    }
}

#[test]
fn debug_text_matches_the_derived_form() {
    let events = Response::Events(vec![
        GhEvent::default(),
        GhEvent {
            title: "a \"b\"\n\u{e9}\\".to_string(),
            avatar_url: Some("x'y".to_string()),
            number: u64::MAX,
            read: true,
            ..GhEvent::default()
        },
    ]);
    assert_eq!(events.debug_text(), format!("{:?}", events));
    let none = Response::Events(Vec::new());
    assert_eq!(none.debug_text(), "Events([])");
    let config = Response::Config(sample_config());
    assert_eq!(config.debug_text(), format!("{:?}", config));
    let event = Response::Event(Some(GhEvent::default()));
    assert_eq!(event.debug_text(), format!("{:?}", event));
    assert_eq!(Response::Event(None).debug_text(), "Event(None)");
    assert_eq!(Response::Done.debug_text(), "Ok");
}

#[test]
fn quoted_texts_are_assembled() {
    let s = Subscription { kind: SubscriptionKind::Org, name: "\"z\"".to_string() };
    assert_eq!(quoted_subscription_text(&s), "Subscription { kind: Org, name: \"z\" }");
    let e = GhEvent { id: "I".to_string(), avatar_url: Some("A".to_string()), ..GhEvent::default() };
    assert_eq!(
        quoted_event_text(&e),
        "GhEventV1 { id: I, kind: 0, repo: , number: 0, title: , author: , avatar_url: Some(A), body: , url: , timestamp: , read: false }"
    );
}

#[test]
fn responses_unwrap() {
    let event = GhEvent { id: "a/b#1".to_string(), ..GhEvent::default() };
    assert_eq!(Response::Events(vec![event.clone()]).into_events(), Ok(vec![event.clone()]));
    assert_eq!(Response::Event(Some(event.clone())).into_event(), Ok(Some(event)));
    assert_eq!(Response::Event(None).into_event(), Ok(None));
    assert_eq!(Response::Config(sample_config()).into_config(), Ok(sample_config()));
    assert_eq!(Response::Done.into_ok(), Ok(()));
}

#[test]
fn unexpected_responses_are_errors() {
    let expect = |message: &str| AppError::new(ErrorKind::Serialization, message.to_string());
    assert_eq!(
        Response::Done.into_events(),
        Err(expect("expected Response::Events, got Ok"))
    );
    assert_eq!(
        Response::Done.into_event(),
        Err(expect("expected Response::Event, got Ok"))
    );
    assert_eq!(
        Response::Event(None).into_config(),
        Err(expect("expected Response::Config, got Event(None)"))
    );
    assert_eq!(
        Response::Events(Vec::new()).into_ok(),
        Err(expect("expected Response::Ok, got Events([])"))
    );
}

#[test]
fn error_shows_its_message() {
    let e = AppError::new(ErrorKind::GitHub, "boom".to_string());
    assert_eq!(e.kind, ErrorKind::GitHub);
    assert_eq!(e.to_string(), "boom");
}

#[test]
fn clones_are_equal() {
    let config = sample_config();
    assert_eq!(config.clone(), config);
    let response = Response::Events(vec![GhEvent::default()]);
    assert_eq!(response.clone(), response);
    let filter = EventFilter { repo: Some("a/b".to_string()), unread_only: true, limit: Some(1) };
    assert_eq!(filter.clone(), filter);
}
