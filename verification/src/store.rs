//! The event store: the SQL that it runs, and what it makes of the rows that come back.

use crate::text::decimal_text;
use crate::wire::{EventFilter, GhEvent};
use vstd::prelude::*;
use vstd::string::StringExecFns;

verus! {

/// An error of the store, in words, so that callers need not know where it came from.
#[derive(Debug)]
pub struct StoreError(pub String);

impl StoreError {
    /// The error as it is shown.
    pub fn to_string(&self) -> (r: String)
        ensures
            r@ == self.0@,
    {
        self.0.clone()
    }
}

/// A statement with the values that are bound to its named parameters, in the order in which
/// they are bound.
#[derive(Debug)]
pub struct Statement {
    pub sql: String,
    pub params: Vec<Param>,
}

/// A named parameter of a statement and the text bound to it.
#[derive(Debug)]
pub struct Param {
    pub name: String,
    pub value: String,
}

/// The contents of a statement: its text, and each parameter's name and value.
#[verifier::ext_equal]
pub struct StatementModel {
    pub sql: Seq<char>,
    pub params: Seq<(Seq<char>, Seq<char>)>,
}

impl View for Statement {
    type V = StatementModel;

    open spec fn view(&self) -> StatementModel {
        StatementModel {
            sql: self.sql@,
            params: self.params@.map_values(|p: Param| (p.name@, p.value@)),
        }
    }
}

/// A step of opening the database.
#[derive(Debug)]
pub enum OpenStep {
    /// Run a statement.
    Run(Statement),
    /// Create the events table, where it is not there yet.
    CreateTable,
}

/// The statement of a step; `None` for the creation of the table.
pub open spec fn open_step_sql(step: OpenStep) -> Option<StatementModel> {
    match step {
        OpenStep::Run(statement) => Some(statement@),
        OpenStep::CreateTable => None,
    }
}

/// A statement without parameters.
pub open spec fn plain(sql: Seq<char>) -> StatementModel {
    StatementModel { sql, params: Seq::empty() }
}

/// A statement with one parameter.
pub open spec fn bound(sql: Seq<char>, name: Seq<char>, value: Seq<char>) -> StatementModel {
    StatementModel { sql, params: seq![(name, value)] }
}

/// The query for the events that a filter admits, newest first.
pub open spec fn events_query(filter: EventFilter) -> StatementModel {
    let repo = if filter.repo is Some {
        " AND repo = :repo"@
    } else {
        Seq::empty()
    };
    let unread = if filter.unread_only {
        " AND read = 0"@
    } else {
        Seq::empty()
    };
    let limit = match filter.limit {
        Some(limit) => " LIMIT "@ + crate::text::decimal(limit as nat),
        None => Seq::empty(),
    };
    StatementModel {
        sql: "SELECT * FROM gheventv1 WHERE 1=1"@ + repo + unread + " ORDER BY timestamp DESC"@
            + limit,
        params: match filter.repo {
            Some(repo) => seq![(":repo"@, repo@)],
            None => Seq::empty(),
        },
    }
}

/// The query for the event with an identifier.
pub open spec fn event_query(id: Seq<char>) -> StatementModel {
    bound("SELECT * FROM gheventv1 WHERE id = :id"@, ":id"@, id)
}

/// The update that marks the event with an identifier as read.
pub open spec fn read_update(id: Seq<char>) -> StatementModel {
    bound("UPDATE gheventv1 SET read = 1 WHERE id = :id"@, ":id"@, id)
}

/// The update that marks all events as read, or those of one repo.
pub open spec fn all_read_update(repo: Option<Seq<char>>) -> StatementModel {
    match repo {
        Some(repo) => bound(
            "UPDATE gheventv1 SET read = 1 WHERE repo = :repo"@,
            ":repo"@,
            repo,
        ),
        None => plain("UPDATE gheventv1 SET read = 1"@),
    }
}

/// The low 32 bits of a number.
pub open spec fn low_bits(count: i64) -> int {
    (count as int) % 0x1_0000_0000
}

fn plain_statement(sql: &str) -> (r: Statement)
    ensures
        r@ == plain(sql@),
{
    let r = Statement { sql: sql.to_owned(), params: Vec::new() };
    assert(r@ =~= plain(sql@));
    r
}

fn bound_statement(sql: &str, name: &str, value: &str) -> (r: Statement)
    ensures
        r@ == bound(sql@, name@, value@),
{
    let mut params: Vec<Param> = Vec::new();
    params.push(Param { name: name.to_owned(), value: value.to_owned() });
    let r = Statement { sql: sql.to_owned(), params };
    assert(r@ =~= bound(sql@, name@, value@));
    r
}

/// The events table of a SQLite database.
pub struct Store;

impl Store {
    /// The steps that open the database: journalling, the table, and its indexes.
    pub fn open() -> (r: Vec<OpenStep>)
        ensures
            r@.map_values(|s: OpenStep| open_step_sql(s)) == seq![
                Some(plain("PRAGMA journal_mode=WAL;"@)),
                Some(plain("PRAGMA foreign_keys=ON;"@)),
                None,
                Some(
                    plain(
                        "CREATE INDEX IF NOT EXISTS idx_gheventv1_timestamp\n                 ON gheventv1(timestamp DESC);"@,
                    ),
                ),
                Some(
                    plain(
                        "CREATE INDEX IF NOT EXISTS idx_gheventv1_repo\n                 ON gheventv1(repo, timestamp DESC);"@,
                    ),
                ),
                Some(
                    plain(
                        "CREATE INDEX IF NOT EXISTS idx_gheventv1_unread\n                 ON gheventv1(read, timestamp DESC);"@,
                    ),
                ),
            ],
    {
        let mut r: Vec<OpenStep> = Vec::new();
        r.push(OpenStep::Run(plain_statement("PRAGMA journal_mode=WAL;")));
        r.push(OpenStep::Run(plain_statement("PRAGMA foreign_keys=ON;")));
        r.push(OpenStep::CreateTable);
        r.push(
            OpenStep::Run(
                plain_statement(
                    "CREATE INDEX IF NOT EXISTS idx_gheventv1_timestamp\n                 ON gheventv1(timestamp DESC);",
                ),
            ),
        );
        r.push(
            OpenStep::Run(
                plain_statement(
                    "CREATE INDEX IF NOT EXISTS idx_gheventv1_repo\n                 ON gheventv1(repo, timestamp DESC);",
                ),
            ),
        );
        r.push(
            OpenStep::Run(
                plain_statement(
                    "CREATE INDEX IF NOT EXISTS idx_gheventv1_unread\n                 ON gheventv1(read, timestamp DESC);",
                ),
            ),
        );
        r
    }

    /// The query for the events that a filter admits.
    pub fn get_events(filter: &EventFilter) -> (r: Statement)
        ensures
            r@ == events_query(*filter),
    {
        let mut sql = "SELECT * FROM gheventv1 WHERE 1=1".to_owned();
        let mut params: Vec<Param> = Vec::new();
        match &filter.repo {
            Some(repo) => {
                sql.append(" AND repo = :repo");
                params.push(Param { name: ":repo".to_owned(), value: repo.clone() });
            },
            None => {
                assert(sql@ + Seq::<char>::empty() =~= sql@);
            },
        }
        if filter.unread_only {
            sql.append(" AND read = 0");
        } else {
            assert(sql@ + Seq::<char>::empty() =~= sql@);
        }
        sql.append(" ORDER BY timestamp DESC");
        match filter.limit {
            Some(limit) => {
                let mut clause = " LIMIT ".to_owned();
                clause.append(decimal_text(limit as u64).as_str());
                sql.append(clause.as_str());
            },
            None => {
                assert(sql@ + Seq::<char>::empty() =~= sql@);
            },
        }
        let r = Statement { sql, params };
        assert(r@.params =~= events_query(*filter).params);
        r
    }

    /// The query for a single event.
    pub fn get_event(id: &str) -> (r: Statement)
        ensures
            r@ == event_query(id@),
    {
        bound_statement("SELECT * FROM gheventv1 WHERE id = :id", ":id", id)
    }

    /// The update that marks an event as read.
    pub fn mark_read(id: &str) -> (r: Statement)
        ensures
            r@ == read_update(id@),
    {
        bound_statement("UPDATE gheventv1 SET read = 1 WHERE id = :id", ":id", id)
    }

    /// The update that marks all events as read, optionally only those of one repo.
    pub fn mark_all_read(repo: Option<&str>) -> (r: Statement)
        ensures
            repo matches Some(repo) ==> r@ == all_read_update(Some(repo@)),
            repo is None ==> r@ == all_read_update(None),
    {
        match repo {
            Some(repo) => bound_statement(
                "UPDATE gheventv1 SET read = 1 WHERE repo = :repo",
                ":repo",
                repo,
            ),
            None => plain_statement("UPDATE gheventv1 SET read = 1"),
        }
    }

    /// The query for the repos that have unread events, with the number of those, the largest
    /// number first.
    pub fn get_repos() -> (r: Statement)
        ensures
            r@ == plain(
                "SELECT repo, COUNT(*) as cnt FROM gheventv1\n             WHERE read = 0\n             GROUP BY repo ORDER BY cnt DESC"@,
            ),
    {
        plain_statement(
            "SELECT repo, COUNT(*) as cnt FROM gheventv1\n             WHERE read = 0\n             GROUP BY repo ORDER BY cnt DESC",
        )
    }
}

/// An unread count as it is reported: the low 32 bits of the database's number.
pub fn unread_count(count: i64) -> (r: u32)
    ensures
        r as int == low_bits(count),
{
    let r: u32 = #[verifier::truncate] (count as u32);
    assert(count as u32 as int == (count as int) % 0x1_0000_0000) by (bit_vector);
    r
}

/// The events of a query's rows: all of them, or the error of the first row that is no event.
pub fn events_of_rows(rows: Vec<Result<GhEvent, StoreError>>) -> (r: Result<
    Vec<GhEvent>,
    StoreError,
>)
    ensures
        match r {
            Ok(events) => events@.len() == rows@.len() && forall|i: int|
                0 <= i < rows@.len() ==> (#[trigger] rows@[i]) == Ok::<GhEvent, StoreError>(
                    events@[i],
                ),
            Err(e) => exists|k: int|
                0 <= k < rows@.len() && (#[trigger] rows@[k]) == Err::<GhEvent, StoreError>(e) && (
                forall|i: int| 0 <= i < k ==> (#[trigger] rows@[i]) is Ok),
        },
{
    let mut events: Vec<GhEvent> = Vec::new();
    let ghost all = rows@;
    for row in it: rows
        invariant
            it.seq() == all,
            events@.len() == it.index(),
            forall|i: int|
                0 <= i < events@.len() ==> (#[trigger] all[i]) == Ok::<GhEvent, StoreError>(
                    events@[i],
                ),
    {
        match row {
            Ok(event) => events.push(event),
            Err(e) => {
                return Err(e);
            },
        }
    }
    Ok(events)
}

/// The event of a query for a single one: none where there is no row, or the error of a row that
/// is no event.
pub fn event_of_row(row: Option<Result<GhEvent, StoreError>>) -> (r: Result<
    Option<GhEvent>,
    StoreError,
>)
    ensures
        match row {
            None => r == Ok::<Option<GhEvent>, StoreError>(None),
            Some(Ok(event)) => r == Ok::<Option<GhEvent>, StoreError>(Some(event)),
            Some(Err(e)) => r == Err::<Option<GhEvent>, StoreError>(e),
        },
{
    match row {
        None => Ok(None),
        Some(Ok(event)) => Ok(Some(event)),
        Some(Err(e)) => Err(e),
    }
}

/// A query for events, whatever the filter, orders them by their time, the newest first. The order
/// stands behind all conditions, and only the limit stands behind it.
pub proof fn events_come_newest_first(filter: EventFilter)
    ensures
        ({
            let query = events_query(filter);
            exists|conditions: Seq<char>, limit: Seq<char>|
                {
                    &&& query.sql == #[trigger] ("SELECT * FROM gheventv1 WHERE 1=1"@
                        + conditions) + #[trigger] (" ORDER BY timestamp DESC"@ + limit)
                    &&& filter.repo is None && !filter.unread_only ==> conditions
                        == Seq::<char>::empty()
                    &&& filter.repo is Some && !filter.unread_only ==> conditions
                        == " AND repo = :repo"@
                    &&& filter.repo is None && filter.unread_only ==> conditions
                        == " AND read = 0"@
                    &&& filter.repo is Some && filter.unread_only ==> conditions
                        == " AND repo = :repo"@ + " AND read = 0"@
                    &&& filter.limit is None ==> limit == Seq::<char>::empty()
                    &&& filter.limit is Some ==> limit == " LIMIT "@ + crate::text::decimal(
                        filter.limit->0 as nat,
                    )
                }
        }),
{
    let repo = if filter.repo is Some {
        " AND repo = :repo"@
    } else {
        Seq::empty()
    };
    let unread = if filter.unread_only {
        " AND read = 0"@
    } else {
        Seq::empty()
    };
    let limit = match filter.limit {
        Some(limit) => " LIMIT "@ + crate::text::decimal(limit as nat),
        None => Seq::empty(),
    };
    let conditions = repo + unread;
    assert(Seq::<char>::empty() + unread =~= unread);
    assert(" AND repo = :repo"@ + Seq::<char>::empty() =~= " AND repo = :repo"@);
    assert(events_query(filter).sql =~= "SELECT * FROM gheventv1 WHERE 1=1"@ + conditions + (
    " ORDER BY timestamp DESC"@ + limit));
}

/// A query for events binds the filter's repo where it has one, and nothing else.
pub proof fn events_are_of_the_wanted_repo(filter: EventFilter)
    ensures
        filter.repo is None ==> events_query(filter).params.len() == 0,
        filter.repo is Some ==> events_query(filter).params.len() == 1 && events_query(
            filter,
        ).params[0].0 == ":repo"@ && events_query(filter).params[0].1 == filter.repo->0@,
{
}

/// An event is looked up and marked as read by its identifier, which is bound: the texts of the
/// two statements are the same for all events, and have the same condition.
pub proof fn one_event_goes_by_its_identifier(id: Seq<char>)
    ensures
        event_query(id).sql == "SELECT * FROM gheventv1"@ + " WHERE id = :id"@,
        read_update(id).sql == "UPDATE gheventv1 SET read = 1"@ + " WHERE id = :id"@,
        event_query(id).params.len() == 1,
        event_query(id).params[0].0 == ":id"@,
        event_query(id).params[0].1 == id,
        read_update(id).params.len() == 1,
        read_update(id).params[0].0 == ":id"@,
        read_update(id).params[0].1 == id,
{
    reveal_strlit("SELECT * FROM gheventv1 WHERE id = :id");
    reveal_strlit("SELECT * FROM gheventv1");
    reveal_strlit("UPDATE gheventv1 SET read = 1 WHERE id = :id");
    reveal_strlit("UPDATE gheventv1 SET read = 1");
    reveal_strlit(" WHERE id = :id");
    assert(event_query(id).sql =~= "SELECT * FROM gheventv1"@ + " WHERE id = :id"@);
    assert(read_update(id).sql =~= "UPDATE gheventv1 SET read = 1"@ + " WHERE id = :id"@);
}

/// To mark the events of a repo as read is to mark all, under the condition that they are of that
/// repo, which is bound; to mark all is to mark one, without the condition.
pub proof fn all_events_are_marked_alike(repo: Seq<char>, id: Seq<char>)
    ensures
        all_read_update(Some(repo)).sql == all_read_update(None).sql + " WHERE repo = :repo"@,
        all_read_update(Some(repo)).params.len() == 1,
        all_read_update(Some(repo)).params[0].0 == ":repo"@,
        all_read_update(Some(repo)).params[0].1 == repo,
        all_read_update(None).params.len() == 0,
        read_update(id).sql == all_read_update(None).sql + " WHERE id = :id"@,
{
    one_event_goes_by_its_identifier(id);
    reveal_strlit("UPDATE gheventv1 SET read = 1 WHERE repo = :repo");
    reveal_strlit("UPDATE gheventv1 SET read = 1");
    reveal_strlit(" WHERE repo = :repo");
    assert(all_read_update(Some(repo)).sql =~= all_read_update(None).sql
        + " WHERE repo = :repo"@);
}

/// A count that fits is reported as it is, and counts that are a multiple of two to the power of
/// 32 apart are reported alike.
pub proof fn counts_that_fit_are_kept(count: i64, other: i64, k: int)
    requires
        other == count + k * 0x1_0000_0000,
    ensures
        0 <= count < 0x1_0000_0000 ==> low_bits(count) == count,
        low_bits(other) == low_bits(count),
        0 <= low_bits(count) < 0x1_0000_0000,
{
    assert((count as int + k * 0x1_0000_0000) % 0x1_0000_0000 == (count as int) % 0x1_0000_0000)
        by (nonlinear_arith);
}

/// The statement that the store runs for events, whatever the filter, orders them by their time,
/// the newest first, behind all conditions and before the limit. It binds the filter's repo where
/// it has one.
pub proof fn the_store_orders_events(filter: &EventFilter, statement: Statement)
    requires
        call_ensures(Store::get_events, (filter,), statement),
    ensures
        exists|conditions: Seq<char>, limit: Seq<char>|
            {
                &&& statement.sql@ == #[trigger] ("SELECT * FROM gheventv1 WHERE 1=1"@ + conditions)
                    + #[trigger] (" ORDER BY timestamp DESC"@ + limit)
                &&& filter.repo is None && !filter.unread_only ==> conditions
                    == Seq::<char>::empty()
                &&& filter.repo is Some && !filter.unread_only ==> conditions
                    == " AND repo = :repo"@
                &&& filter.repo is None && filter.unread_only ==> conditions == " AND read = 0"@
                &&& filter.repo is Some && filter.unread_only ==> conditions
                    == " AND repo = :repo"@ + " AND read = 0"@
                &&& filter.limit is None ==> limit == Seq::<char>::empty()
                &&& filter.limit is Some ==> limit == " LIMIT "@ + crate::text::decimal(
                    filter.limit->0 as nat,
                )
            },
        filter.repo matches Some(wanted) ==> statement.params@.len() == 1
            && statement.params@[0].name@ == ":repo"@ && statement.params@[0].value@ == wanted@,
        filter.repo is None ==> statement.params@.len() == 0,
{
    events_come_newest_first(*filter);
    events_are_of_the_wanted_repo(*filter);
    assert(statement@.params.len() == statement.params@.len());
    if filter.repo is Some {
        assert(statement@.params[0] == (
            statement.params@[0].name@,
            statement.params@[0].value@,
        ));
    }
}

/// The statements that the store runs for one event name it by its identifier, and those that mark
/// events as read mark all of them, or those of a repo; what they are about is bound.
pub proof fn the_store_marks_what_was_asked(
    id: &str,
    repo: &str,
    event: Statement,
    read: Statement,
    all: Statement,
    of_repo: Statement,
)
    requires
        call_ensures(Store::get_event, (id,), event),
        call_ensures(Store::mark_read, (id,), read),
        call_ensures(Store::mark_all_read, (None,), all),
        call_ensures(Store::mark_all_read, (Some(repo),), of_repo),
    ensures
        event.sql@ == "SELECT * FROM gheventv1"@ + " WHERE id = :id"@,
        event.params@.len() == 1,
        event.params@[0].name@ == ":id"@,
        event.params@[0].value@ == id@,
        read.sql@ == all.sql@ + " WHERE id = :id"@,
        read.params@.len() == 1,
        read.params@[0].name@ == ":id"@,
        read.params@[0].value@ == id@,
        all.sql@ == "UPDATE gheventv1 SET read = 1"@,
        all.params@.len() == 0,
        of_repo.sql@ == all.sql@ + " WHERE repo = :repo"@,
        of_repo.params@.len() == 1,
        of_repo.params@[0].name@ == ":repo"@,
        of_repo.params@[0].value@ == repo@,
{
    one_event_goes_by_its_identifier(id@);
    all_events_are_marked_alike(repo@, id@);
    assert(event@.params.len() == event.params@.len());
    assert(read@.params.len() == read.params@.len());
    assert(all@.params.len() == all.params@.len());
    assert(of_repo@.params.len() == of_repo.params@.len());
    assert(event@.params[0] == (event.params@[0].name@, event.params@[0].value@));
    assert(read@.params[0] == (read.params@[0].name@, read.params@[0].value@));
    assert(of_repo@.params[0] == (of_repo.params@[0].name@, of_repo.params@[0].value@));
}

/// The rows of a query are events as they are, in their order, unless one of them is none: then
/// the error of the first such row is all that comes of it. Of a single row, or of none, the same.
pub proof fn rows_are_taken_as_they_are(
    rows: Vec<Result<GhEvent, StoreError>>,
    row: Option<Result<GhEvent, StoreError>>,
    all: Result<Vec<GhEvent>, StoreError>,
    one: Result<Option<GhEvent>, StoreError>,
)
    requires
        call_ensures(events_of_rows, (rows,), all),
        call_ensures(event_of_row, (row,), one),
    ensures
        all is Ok <==> forall|i: int| 0 <= i < rows@.len() ==> (#[trigger] rows@[i]) is Ok,
        all matches Ok(events) ==> events@.len() == rows@.len() && forall|i: int|
            0 <= i < rows@.len() ==> #[trigger] events@[i] == rows@[i]->Ok_0,
        all matches Err(e) ==> exists|k: int|
            0 <= k < rows@.len() && rows@[k] is Err && #[trigger] rows@[k]->Err_0 == e && forall|
                i: int,
            |
                0 <= i < k ==> (#[trigger] rows@[i]) is Ok,
        row is None ==> one is Ok && one->Ok_0 is None,
        row matches Some(Ok(event)) ==> one is Ok && one->Ok_0 == Some(event),
        row matches Some(Err(e)) ==> one is Err && one->Err_0 == e,
{
    match all {
        Ok(events) => {
            assert forall|i: int| 0 <= i < rows@.len() implies #[trigger] events@[i]
                == rows@[i]->Ok_0 by {
                assert(rows@[i] == Ok::<GhEvent, StoreError>(events@[i]));
            }
        },
        Err(e) => {
            let k = choose|k: int|
                0 <= k < rows@.len() && (#[trigger] rows@[k]) == Err::<GhEvent, StoreError>(e) && (
                forall|i: int| 0 <= i < k ==> (#[trigger] rows@[i]) is Ok);
            assert(rows@[k]->Err_0 == e);
        },
    }
}

/// A count that fits is reported as it is.
pub proof fn unread_counts_are_reported(count: i64, reported: u32)
    requires
        call_ensures(unread_count, (count,), reported),
    ensures
        0 <= count < 0x1_0000_0000 ==> reported == count,
{
    counts_that_fit_are_kept(count, count, 0);
}

/// To open the database, journalling and keys are set first, then the table is made, and then the
/// indexes of it, each ordered by time with the newest first.
pub proof fn the_table_comes_before_its_indexes(steps: Vec<OpenStep>)
    requires
        call_ensures(Store::open, (), steps),
    ensures
        steps@.len() == 6,
        forall|i: int| 0 <= i < 6 ==> ((#[trigger] steps@[i]) is CreateTable <==> i == 2),
        forall|i: int|
            0 <= i < 6 && i != 2 ==> (#[trigger] steps@[i]->Run_0).params@.len() == 0,
        steps@[0]->Run_0.sql@ == "PRAGMA journal_mode=WAL;"@,
        steps@[1]->Run_0.sql@ == "PRAGMA foreign_keys=ON;"@,
        steps@[3]->Run_0.sql@
            == "CREATE INDEX IF NOT EXISTS idx_gheventv1_timestamp\n                 ON gheventv1(timestamp DESC);"@,
        steps@[4]->Run_0.sql@
            == "CREATE INDEX IF NOT EXISTS idx_gheventv1_repo\n                 ON gheventv1(repo, timestamp DESC);"@,
        steps@[5]->Run_0.sql@
            == "CREATE INDEX IF NOT EXISTS idx_gheventv1_unread\n                 ON gheventv1(read, timestamp DESC);"@,
{
    let sql = steps@.map_values(|s: OpenStep| open_step_sql(s));
    assert(sql.len() == 6);
    assert(steps@.len() == 6);
    assert(forall|i: int| 0 <= i < 6 ==> #[trigger] sql[i] == open_step_sql(steps@[i]));
    assert(sql[0] is Some && sql[1] is Some && sql[2] is None && sql[3] is Some && sql[4] is Some
        && sql[5] is Some);
    assert forall|i: int| 0 <= i < 6 implies ((#[trigger] steps@[i]) is CreateTable <==> i
        == 2) by {
        assert(sql[i] == open_step_sql(steps@[i]));
    }
    assert forall|i: int| 0 <= i < 6 && i != 2 implies (
    #[trigger] steps@[i]->Run_0).params@.len() == 0 by {
        assert(sql[i] == open_step_sql(steps@[i]));
        assert(sql[i]->0.params.len() == steps@[i]->Run_0.params@.len());
    }
}

} // verus!
