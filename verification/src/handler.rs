//! Router and persistence operations, as one step machine per connection.
//!
//! `begin` reads a raw request and answers either a finished reply or a
//! database action together with the state that awaits its outcome; `resume`
//! takes that state and the database's answer and produces the next step.
//! The caller owns the socket and the database: it reads the buffer, performs
//! each action, and writes the final reply.

use vstd::prelude::*;
use crate::codec::{id_token_of, Response, Status};
use crate::model::{
    decode_body, decoded_fields_of, json_of_user, user_json, users_json, users_json_of, User,
    UserV, views_of,
};
use crate::text::{parse_i32, parsed_i32, str_starts_with};

verus! {

/// The five route patterns, the preflight answer, and no-match.
#[derive(Clone, Copy, PartialEq, Eq, Structural, Debug)]
pub enum Route {
    Preflight,
    Create,
    GetOne,
    GetAll,
    Update,
    Delete,
    Unknown,
}

/// Which route a raw request line selects: prefix tests in a fixed priority
/// order. The get-one pattern stands before the bare get-all pattern, so the
/// longer, more specific prefix wins; that order is load-bearing.
pub open spec fn route_of(r: Seq<char>) -> Route {
    if "OPTIONS"@.is_prefix_of(r) {
        Route::Preflight
    } else if "POST /api/rust/users"@.is_prefix_of(r) {
        Route::Create
    } else if "GET /api/rust/users/"@.is_prefix_of(r) {
        Route::GetOne
    } else if "GET /api/rust/users"@.is_prefix_of(r) {
        Route::GetAll
    } else if "PUT /api/rust/users/"@.is_prefix_of(r) {
        Route::Update
    } else if "DELETE /api/rust/users/"@.is_prefix_of(r) {
        Route::Delete
    } else {
        Route::Unknown
    }
}

/// Routes a raw request by prefix, most specific pattern first.
pub fn route(request: &str) -> (rt: Route)
    ensures
        rt == route_of(request@),
{
    if str_starts_with(request, "OPTIONS") {
        Route::Preflight
    } else if str_starts_with(request, "POST /api/rust/users") {
        Route::Create
    } else if str_starts_with(request, "GET /api/rust/users/") {
        Route::GetOne
    } else if str_starts_with(request, "GET /api/rust/users") {
        Route::GetAll
    } else if str_starts_with(request, "PUT /api/rust/users/") {
        Route::Update
    } else if str_starts_with(request, "DELETE /api/rust/users/") {
        Route::Delete
    } else {
        Route::Unknown
    }
}

/// One parameterized statement for the caller to run against the database.
pub enum DbAction {
    /// INSERT (name, email), answering the generated id.
    Insert { name: String, email: String },
    /// SELECT the row with this id.
    FetchOne { id: i32 },
    /// SELECT every row.
    FetchAll,
    /// UPDATE name and email of the row with this id.
    UpdateRow { id: i32, name: String, email: String },
    /// DELETE the row with this id, answering the affected-row count.
    DeleteRow { id: i32 },
}

#[verifier::ext_equal]
pub enum DbActionV {
    Insert { name: Seq<char>, email: Seq<char> },
    FetchOne { id: int },
    FetchAll,
    UpdateRow { id: int, name: Seq<char>, email: Seq<char> },
    DeleteRow { id: int },
}

impl View for DbAction {
    type V = DbActionV;

    open spec fn view(&self) -> DbActionV {
        match self {
            DbAction::Insert { name, email } => DbActionV::Insert {
                name: name@,
                email: email@,
            },
            DbAction::FetchOne { id } => DbActionV::FetchOne { id: *id as int },
            DbAction::FetchAll => DbActionV::FetchAll,
            DbAction::UpdateRow { id, name, email } => DbActionV::UpdateRow {
                id: *id as int,
                name: name@,
                email: email@,
            },
            DbAction::DeleteRow { id } => DbActionV::DeleteRow { id: *id as int },
        }
    }
}

/// What the database answered: a failure to connect or run the statement,
/// or the statement's result.
pub enum DbEvent {
    Failed,
    InsertedId(i32),
    FoundRow(User),
    NoSuchRow,
    AllRows(Vec<User>),
    RowsAffected(u64),
}

#[verifier::ext_equal]
pub enum DbEventV {
    Failed,
    InsertedId(int),
    FoundRow(UserV),
    NoSuchRow,
    AllRows(Seq<UserV>),
    RowsAffected(int),
}

impl View for DbEvent {
    type V = DbEventV;

    open spec fn view(&self) -> DbEventV {
        match self {
            DbEvent::Failed => DbEventV::Failed,
            DbEvent::InsertedId(id) => DbEventV::InsertedId(*id as int),
            DbEvent::FoundRow(u) => DbEventV::FoundRow(u@),
            DbEvent::NoSuchRow => DbEventV::NoSuchRow,
            DbEvent::AllRows(rows) => DbEventV::AllRows(views_of(rows@)),
            DbEvent::RowsAffected(n) => DbEventV::RowsAffected(*n as int),
        }
    }
}

/// Which database answer the operation is waiting for.
#[derive(Clone, Copy, PartialEq, Eq, Structural, Debug)]
pub enum Pending {
    /// Create ran its insert and awaits the generated id.
    AwaitInsertId,
    /// Create re-reads the committed row before answering.
    AwaitCreatedRow,
    /// Get-one awaits the row it asked for.
    AwaitRequestedRow,
    /// Get-all awaits every row.
    AwaitAllRows,
    /// Update awaits the statement's end; the count is not inspected.
    AwaitUpdateDone,
    /// Delete awaits the affected-row count.
    AwaitDeleteCount,
}

/// What the caller does next: write the reply, or run an action and hand
/// its outcome back to `resume`.
pub enum Step {
    Reply(Response),
    Ask(DbAction, Pending),
}

#[verifier::ext_equal]
pub enum StepV {
    Reply(crate::codec::ResponseV),
    Ask(DbActionV, Pending),
}

impl View for Step {
    type V = StepV;

    open spec fn view(&self) -> StepV {
        match self {
            Step::Reply(r) => StepV::Reply(r@),
            Step::Ask(a, p) => StepV::Ask(a@, *p),
        }
    }
}

pub open spec fn reply_of(st: Status, body: Seq<char>) -> StepV {
    StepV::Reply((crate::codec::ResponseV { status: st, body }))
}

/// The one generic failure reply: every cause but not-found collapses to it.
pub open spec fn internal_of() -> StepV {
    reply_of(Status::InternalError, "Internal error"@)
}

/// The first step for a raw request: route it, validate its inputs, and
/// either reply at once or ask for the route's first database action.
pub open spec fn begin_of(r: Seq<char>) -> StepV {
    match route_of(r) {
        Route::Preflight => reply_of(Status::Okay, Seq::empty()),
        Route::Create => match decoded_fields_of(r) {
            Some(p) => StepV::Ask(
                (DbActionV::Insert { name: p.0, email: p.1 }),
                Pending::AwaitInsertId,
            ),
            None => internal_of(),
        },
        Route::GetOne => match parsed_i32(id_token_of(r)) {
            Some(id) => StepV::Ask((DbActionV::FetchOne { id }), Pending::AwaitRequestedRow),
            None => internal_of(),
        },
        Route::GetAll => StepV::Ask(DbActionV::FetchAll, Pending::AwaitAllRows),
        Route::Update => match (parsed_i32(id_token_of(r)), decoded_fields_of(r)) {
            (Some(id), Some(p)) => StepV::Ask(
                (DbActionV::UpdateRow { id, name: p.0, email: p.1 }),
                Pending::AwaitUpdateDone,
            ),
            _ => internal_of(),
        },
        Route::Delete => match parsed_i32(id_token_of(r)) {
            Some(id) => StepV::Ask((DbActionV::DeleteRow { id }), Pending::AwaitDeleteCount),
            None => internal_of(),
        },
        Route::Unknown => reply_of(Status::NotFound, "404 not found"@),
    }
}

/// The step after a database answer: each operation maps its outcome to a
/// reply, and every unexpected shape collapses to the generic failure reply.
pub open spec fn resume_of(p: Pending, e: DbEventV) -> StepV {
    match (p, e) {
        (Pending::AwaitInsertId, DbEventV::InsertedId(id)) => StepV::Ask(
            (DbActionV::FetchOne { id }),
            Pending::AwaitCreatedRow,
        ),
        (Pending::AwaitCreatedRow, DbEventV::FoundRow(u)) => reply_of(
            Status::Okay,
            json_of_user(u.id, u.name, u.email),
        ),
        (Pending::AwaitCreatedRow, _) => reply_of(
            Status::InternalError,
            "Failed to retrieve created user"@,
        ),
        (Pending::AwaitRequestedRow, DbEventV::FoundRow(u)) => reply_of(
            Status::Okay,
            json_of_user(u.id, u.name, u.email),
        ),
        (Pending::AwaitRequestedRow, DbEventV::NoSuchRow) => reply_of(
            Status::NotFound,
            "User not found"@,
        ),
        (Pending::AwaitAllRows, DbEventV::AllRows(rows)) => reply_of(
            Status::Okay,
            users_json_of(rows),
        ),
        (Pending::AwaitUpdateDone, DbEventV::RowsAffected(_)) => reply_of(
            Status::Okay,
            "User updated"@,
        ),
        (Pending::AwaitDeleteCount, DbEventV::RowsAffected(n)) => if n == 0 {
            reply_of(Status::NotFound, "User not found"@)
        } else {
            reply_of(Status::Okay, "User deleted"@)
        },
        _ => internal_of(),
    }
}

fn internal_reply() -> (s: Step)
    ensures
        s@ == internal_of(),
{
    Step::Reply(Response { status: Status::InternalError, body: String::from_str("Internal error") })
}

/// Takes one raw request and answers the first step: an immediate reply for
/// the preflight, the no-match and the invalid-input cases, else the routed
/// operation's first database action.
pub fn begin(request: &str) -> (s: Step)
    ensures
        s@ == begin_of(request@),
{
    match route(request) {
        Route::Preflight => Step::Reply(Response { status: Status::Okay, body: String::new() }),
        Route::Create => match decode_body(request) {
            Ok(u) => Step::Ask(
                DbAction::Insert { name: u.name, email: u.email },
                Pending::AwaitInsertId,
            ),
            Err(_) => internal_reply(),
        },
        Route::GetOne => {
            let token = crate::codec::get_id(request);
            match parse_i32(token.as_str()) {
                Some(id) => Step::Ask(DbAction::FetchOne { id }, Pending::AwaitRequestedRow),
                None => internal_reply(),
            }
        },
        Route::GetAll => Step::Ask(DbAction::FetchAll, Pending::AwaitAllRows),
        Route::Update => {
            let token = crate::codec::get_id(request);
            match (parse_i32(token.as_str()), decode_body(request)) {
                (Some(id), Ok(u)) => Step::Ask(
                    DbAction::UpdateRow { id, name: u.name, email: u.email },
                    Pending::AwaitUpdateDone,
                ),
                _ => internal_reply(),
            }
        },
        Route::Delete => {
            let token = crate::codec::get_id(request);
            match parse_i32(token.as_str()) {
                Some(id) => Step::Ask(DbAction::DeleteRow { id }, Pending::AwaitDeleteCount),
                None => internal_reply(),
            }
        },
        Route::Unknown => Step::Reply(
            Response { status: Status::NotFound, body: String::from_str("404 not found") },
        ),
    }
}

/// Takes the awaited state and the database's answer and produces the next
/// step, exactly as `resume_of` maps them.
pub fn resume(p: Pending, e: DbEvent) -> (s: Step)
    ensures
        s@ == resume_of(p, e@),
{
    match (p, e) {
        (Pending::AwaitInsertId, DbEvent::InsertedId(id)) => Step::Ask(
            DbAction::FetchOne { id },
            Pending::AwaitCreatedRow,
        ),
        (Pending::AwaitCreatedRow, DbEvent::FoundRow(u)) => Step::Reply(
            Response { status: Status::Okay, body: user_json(&u) },
        ),
        (Pending::AwaitCreatedRow, _) => Step::Reply(
            Response {
                status: Status::InternalError,
                body: String::from_str("Failed to retrieve created user"),
            },
        ),
        (Pending::AwaitRequestedRow, DbEvent::FoundRow(u)) => Step::Reply(
            Response { status: Status::Okay, body: user_json(&u) },
        ),
        (Pending::AwaitRequestedRow, DbEvent::NoSuchRow) => Step::Reply(
            Response { status: Status::NotFound, body: String::from_str("User not found") },
        ),
        (Pending::AwaitAllRows, DbEvent::AllRows(rows)) => Step::Reply(
            Response { status: Status::Okay, body: users_json(&rows) },
        ),
        (Pending::AwaitUpdateDone, DbEvent::RowsAffected(_)) => Step::Reply(
            Response { status: Status::Okay, body: String::from_str("User updated") },
        ),
        (Pending::AwaitDeleteCount, DbEvent::RowsAffected(n)) => {
            if n == 0 {
                Step::Reply(
                    Response { status: Status::NotFound, body: String::from_str("User not found") },
                )
            } else {
                Step::Reply(
                    Response { status: Status::Okay, body: String::from_str("User deleted") },
                )
            }
        },
        _ => internal_reply(),
    }
}

/// Law: a request line that opens `GET /api/rust/users/` dispatches to
/// get-one, never to get-all, whatever trails the final slash — the router
/// tests the longer prefix first.
pub proof fn lemma_route_precedence(r: Seq<char>)
    requires
        "GET /api/rust/users/"@.is_prefix_of(r),
    ensures
        route_of(r) == Route::GetOne,
{
    reveal_strlit("OPTIONS");
    reveal_strlit("POST /api/rust/users");
    reveal_strlit("GET /api/rust/users/");
    let p = "GET /api/rust/users/"@;
    assert(r.subrange(0, p.len() as int)[0] == r[0]);
    assert(r[0] == 'G');
    if "OPTIONS"@.is_prefix_of(r) {
        assert(r.subrange(0, "OPTIONS"@.len() as int)[0] == r[0]);
        assert(r[0] == 'O');
    }
    if "POST /api/rust/users"@.is_prefix_of(r) {
        assert(r.subrange(0, "POST /api/rust/users"@.len() as int)[0] == r[0]);
        assert(r[0] == 'P');
    }
}

/// Law: once the database has answered a get-one lookup, a missing row reads
/// as not-found and a present row as OK — neither case is an internal error.
pub proof fn lemma_get_one_not_internal(e: DbEventV)
    requires
        e is NoSuchRow || e is FoundRow,
    ensures
        e is NoSuchRow ==> resume_of(Pending::AwaitRequestedRow, e) == reply_of(
            Status::NotFound,
            "User not found"@,
        ),
        resume_of(Pending::AwaitRequestedRow, e) matches StepV::Reply(resp)
            && resp.status != Status::InternalError,
{
}

/// Law: a delete answers by the affected-row count alone, so deleting an id
/// whose row is already gone answers not-found, on the second try as on
/// every later one.
pub proof fn lemma_delete_idempotent(n: int)
    ensures
        n == 0 ==> resume_of(Pending::AwaitDeleteCount, DbEventV::RowsAffected(n)) == reply_of(
            Status::NotFound,
            "User not found"@,
        ),
        n != 0 ==> resume_of(Pending::AwaitDeleteCount, DbEventV::RowsAffected(n)) == reply_of(
            Status::Okay,
            "User deleted"@,
        ),
{
}

/// Law: an update answers OK whatever the affected-row count — an id that
/// matched no row included. The gap is documented behaviour, kept as is.
pub proof fn lemma_update_ignores_count(n: int)
    ensures
        resume_of(Pending::AwaitUpdateDone, DbEventV::RowsAffected(n)) == reply_of(
            Status::Okay,
            "User updated"@,
        ),
{
}

/// Law: get-all over an empty table answers OK with the empty JSON array,
/// never not-found and never an error.
pub proof fn lemma_get_all_empty()
    ensures
        resume_of(Pending::AwaitAllRows, DbEventV::AllRows(Seq::empty())) == reply_of(
            Status::Okay,
            "[]"@,
        ),
{
    reveal_strlit("[");
    reveal_strlit("]");
    reveal_strlit("[]");
    assert(users_json_of(Seq::empty()) =~= "[]"@);
}

/// Law: a create request whose body decodes to (name, email), once the
/// database confirms it, and a later get-one of the returned id, answer OK
/// with the same entity text, carrying that id with the stored name and
/// email. The premise that the database hands back the row it stored is the
/// shared `FoundRow` value.
pub proof fn lemma_create_then_get_one(r: Seq<char>, id: int, name: Seq<char>, email: Seq<char>)
    requires
        route_of(r) == Route::Create,
        decoded_fields_of(r) == Some((name, email)),
    ensures
        begin_of(r) == StepV::Ask(
            (DbActionV::Insert { name, email }),
            Pending::AwaitInsertId,
        ),
        resume_of(Pending::AwaitInsertId, DbEventV::InsertedId(id)) == StepV::Ask(
            (DbActionV::FetchOne { id }),
            Pending::AwaitCreatedRow,
        ),
        resume_of(
            Pending::AwaitCreatedRow,
            DbEventV::FoundRow((UserV { id, name, email })),
        ) == reply_of(Status::Okay, json_of_user(id, name, email)),
        resume_of(
            Pending::AwaitRequestedRow,
            DbEventV::FoundRow((UserV { id, name, email })),
        ) == reply_of(Status::Okay, json_of_user(id, name, email)),
{
}

} // verus!