use liase::store::{event_of_row, events_of_rows, unread_count, OpenStep, Statement, Store, StoreError};
use liase::wire::{EventFilter, GhEvent};

fn parts(s: &Statement) -> (String, Vec<(String, String)>) {
    (s.sql.clone(), s.params.iter().map(|p| (p.name.clone(), p.value.clone())).collect())
}

fn query(repo: Option<&str>, unread_only: bool, limit: Option<u32>) -> (String, Vec<(String, String)>) {
    parts(&Store::get_events(&EventFilter { repo: repo.map(|r| r.to_string()), unread_only, limit }))
}

fn pair(name: &str, value: &str) -> Vec<(String, String)> {
    vec![(name.to_string(), value.to_string())]
}

#[test]
fn events_query_follows_the_filter() {
    assert_eq!(
        query(None, false, None),
        ("SELECT * FROM gheventv1 WHERE 1=1 ORDER BY timestamp DESC".to_string(), vec![])
    );
    assert_eq!(
        query(None, true, Some(200)),
        (
            "SELECT * FROM gheventv1 WHERE 1=1 AND read = 0 ORDER BY timestamp DESC LIMIT 200"
                .to_string(),
            vec![]
        )
    );
    assert_eq!(
        query(Some("a/b"), false, Some(0)),
        (
            "SELECT * FROM gheventv1 WHERE 1=1 AND repo = :repo ORDER BY timestamp DESC LIMIT 0"
                .to_string(),
            pair(":repo", "a/b")
        )
    );
    assert_eq!(
        query(Some("o'neil/x"), true, None),
        (
            "SELECT * FROM gheventv1 WHERE 1=1 AND repo = :repo AND read = 0 ORDER BY timestamp DESC"
                .to_string(),
            pair(":repo", "o'neil/x")
        )
    );
}

#[test]
fn statements_of_the_store() {
    assert_eq!(
        parts(&Store::get_event("x")),
        ("SELECT * FROM gheventv1 WHERE id = :id".to_string(), pair(":id", "x"))
    );
    assert_eq!(
        parts(&Store::mark_read("x")),
        ("UPDATE gheventv1 SET read = 1 WHERE id = :id".to_string(), pair(":id", "x"))
    );
    assert_eq!(
        parts(&Store::mark_all_read(Some("a/b"))),
        ("UPDATE gheventv1 SET read = 1 WHERE repo = :repo".to_string(), pair(":repo", "a/b"))
    );
    assert_eq!(
        parts(&Store::mark_all_read(None)),
        ("UPDATE gheventv1 SET read = 1".to_string(), vec![])
    );
}

/// The columns of an event, for a table made by hand.
const TABLE: &str = "CREATE TABLE gheventv1 (id TEXT PRIMARY KEY, repo TEXT, timestamp TEXT, read INTEGER)";

fn run(conn: &sqlite::Connection, s: &Statement) -> Vec<String> {
    let mut stmt = conn.prepare(s.sql.as_str()).unwrap();
    for p in &s.params {
        stmt.bind((p.name.as_str(), p.value.as_str())).unwrap();
    }
    let mut first = Vec::new();
    while let Ok(sqlite::State::Row) = stmt.next() {
        first.push(stmt.read::<String, _>(0).unwrap());
    }
    first
}

fn database() -> sqlite::Connection {
    let conn = sqlite::Connection::open(":memory:").unwrap();
    for step in Store::open() {
        match step {
            OpenStep::Run(s) => conn.execute(s.sql).unwrap(),
            OpenStep::CreateTable => conn.execute(TABLE).unwrap(),
        }
    }
    conn.execute(
        "INSERT INTO gheventv1 VALUES ('1', 'a/b', '2024-01-01', 0), ('2', 'a/b', '2024-01-03', 1),
         ('3', 'c/d', '2024-01-02', 0), ('4', 'a/b', '2024-01-04', 0)",
    )
    .unwrap();
    conn
}

#[test]
fn queries_run_on_sqlite() {
    let conn = database();
    let all = |repo: Option<&str>, unread_only, limit| {
        run(&conn, &Store::get_events(&EventFilter {
            repo: repo.map(|r| r.to_string()),
            unread_only,
            limit,
        }))
    };
    assert_eq!(all(None, false, None), vec!["4", "2", "3", "1"]);
    assert_eq!(all(None, true, None), vec!["4", "3", "1"]);
    assert_eq!(all(Some("a/b"), false, Some(2)), vec!["4", "2"]);
    assert_eq!(run(&conn, &Store::get_event("3")), vec!["3"]);
    assert!(run(&conn, &Store::get_event("9")).is_empty());
    assert_eq!(run(&conn, &Store::get_repos()), vec!["a/b", "c/d"]);
}

#[test]
fn marking_runs_on_sqlite() {
    let conn = database();
    let unread = || {
        run(&conn, &Store::get_events(&EventFilter { repo: None, unread_only: true, limit: None }))
    };
    assert!(run(&conn, &Store::mark_read("4")).is_empty());
    assert_eq!(unread(), vec!["3", "1"]);
    run(&conn, &Store::mark_all_read(Some("a/b")));
    assert_eq!(unread(), vec!["3"]);
    run(&conn, &Store::mark_all_read(None));
    assert!(unread().is_empty());
    assert!(run(&conn, &Store::get_repos()).is_empty());
}

#[test]
fn opening_makes_the_table_before_its_indexes() {
    let steps = Store::open();
    assert_eq!(steps.len(), 6);
    assert!(matches!(steps[2], OpenStep::CreateTable));
    match &steps[0] {
        OpenStep::Run(s) => assert_eq!(s.sql, "PRAGMA journal_mode=WAL;"),
        OpenStep::CreateTable => panic!("the table comes third"),
    }
}

#[test]
fn unread_counts_are_cut_to_32_bits() {
    assert_eq!(unread_count(0), 0);
    assert_eq!(unread_count(7), 7);
    assert_eq!(unread_count(4_294_967_296), 0);
    assert_eq!(unread_count(-1), u32::MAX);
}

#[test]
fn rows_are_all_events_or_an_error() {
    let event = |id: &str| GhEvent { id: id.to_string(), ..GhEvent::default() };
    let events = events_of_rows(vec![Ok(event("1")), Ok(event("2"))]).unwrap();
    assert_eq!(events, vec![event("1"), event("2")]);
    let e = events_of_rows(vec![
        Ok(event("1")),
        Err(StoreError("first".to_string())),
        Err(StoreError("second".to_string())),
    ])
    .unwrap_err();
    assert_eq!(e.to_string(), "first");
    assert!(events_of_rows(Vec::new()).unwrap().is_empty());
}

#[test]
fn a_row_is_an_event_none_or_an_error() {
    let event = GhEvent { id: "1".to_string(), ..GhEvent::default() };
    assert_eq!(event_of_row(None).unwrap(), None);
    assert_eq!(event_of_row(Some(Ok(event.clone()))).unwrap(), Some(event));
    let e = event_of_row(Some(Err(StoreError("bad".to_string())))).unwrap_err();
    assert_eq!(e.to_string(), "bad");
}
