//! The dispatcher: one request in, one planned store action or an
//! immediate reply, one event back from the store, one response out.
//! The network loop outside the library performs the store action
//! against the relational backend and hands the outcome back as a
//! plain event; against the in-memory store the whole path is verified
//! end to end.
use vstd::prelude::*;
use crate::json::decode_user_payload;
use crate::json::encode_user;
use crate::json::encode_user_list;
use crate::json::json_user;
use crate::json::json_user_list;
use crate::json::payload_fields;
use crate::response::Response;
use crate::response::Status;
use crate::router::Route;
use crate::router::route;
use crate::router::route_of;
use crate::store::RowModel;
use crate::store::StoreModel;
use crate::store::UserRow;
use crate::store::UserStore;
use crate::store::spec_create;
use crate::store::spec_delete;
use crate::store::spec_get;
use crate::store::spec_update;
use crate::text::body_of;
use crate::text::extract_body;
use crate::text::get_id;
use crate::text::i32_literal_value;
use crate::text::id_token_of;
use crate::text::is_i32_literal;
use crate::text::parse_i32;

verus! {

/// One parameterized statement against the store.
#[derive(Debug)]
pub enum DbAction {
    Insert { name: String, email: String },
    SelectById { id: i32 },
    SelectAll,
    Update { id: i32, name: String, email: String },
    Delete { id: i32 },
}

/// What came back from the store: row data, a row count, or a
/// connection or statement failure.
#[derive(Debug)]
pub enum DbEvent {
    Inserted,
    RowFound { id: i32, name: String, email: String },
    NoRow,
    AllRows { rows: Vec<UserRow> },
    Updated,
    Deleted { n: u64 },
    Failed,
}

/// What the dispatcher decided for a request: answer at once, or run
/// one store action first.
#[derive(Debug)]
pub enum Step {
    Reply { resp: Response },
    Db { action: DbAction },
}

/// Mathematical image of a dispatch decision.
pub enum PlanModel {
    Reply { status: Status, body: Seq<char> },
    Insert { name: Seq<char>, email: Seq<char> },
    SelectById { id: int },
    SelectAll,
    Update { id: int, name: Seq<char>, email: Seq<char> },
    Delete { id: int },
}

pub open spec fn step_model(s: Step) -> PlanModel {
    match s {
        Step::Reply { resp } => PlanModel::Reply { status: resp.status, body: resp.body@ },
        Step::Db { action } => match action {
            DbAction::Insert { name, email } => PlanModel::Insert { name: name@, email: email@ },
            DbAction::SelectById { id } => PlanModel::SelectById { id: id as int },
            DbAction::SelectAll => PlanModel::SelectAll,
            DbAction::Update { id, name, email } => PlanModel::Update {
                id: id as int,
                name: name@,
                email: email@,
            },
            DbAction::Delete { id } => PlanModel::Delete { id: id as int },
        },
    }
}

/// The dispatch decision for a request: route by prefix, then pull the
/// id token and the body out of the text. A malformed id token or an
/// unreadable body collapses to the generic internal error; an
/// unrouted request is answered not-found.
pub open spec fn spec_plan(req: Seq<char>) -> PlanModel {
    match route_of(req) {
        Route::CreateUser => match payload_fields(body_of(req)) {
            Some(p) => PlanModel::Insert { name: p.0, email: p.1 },
            None => PlanModel::Reply {
                status: Status::InternalError,
                body: "Internal error"@,
            },
        },
        Route::GetUser => if is_i32_literal(id_token_of(req)) {
            PlanModel::SelectById { id: i32_literal_value(id_token_of(req)) }
        } else {
            PlanModel::Reply { status: Status::InternalError, body: "Internal error"@ }
        },
        Route::ListUsers => PlanModel::SelectAll,
        Route::UpdateUser => if is_i32_literal(id_token_of(req)) && payload_fields(
            body_of(req),
        ) is Some {
            PlanModel::Update {
                id: i32_literal_value(id_token_of(req)),
                name: (payload_fields(body_of(req))->0).0,
                email: (payload_fields(body_of(req))->0).1,
            }
        } else {
            PlanModel::Reply { status: Status::InternalError, body: "Internal error"@ }
        },
        Route::DeleteUser => if is_i32_literal(id_token_of(req)) {
            PlanModel::Delete { id: i32_literal_value(id_token_of(req)) }
        } else {
            PlanModel::Reply { status: Status::InternalError, body: "Internal error"@ }
        },
        Route::NoMatch => PlanModel::Reply { status: Status::NotFound, body: "404 not found"@ },
    }
}

/// Turns raw request text into the dispatch decision of `spec_plan`.
pub fn plan_request(request: &str) -> (s: Step)
    ensures
        step_model(s) == spec_plan(request@),
{
    let r = route(request);
    match r {
        Route::CreateUser => match decode_user_payload(extract_body(request)) {
            Some(p) => Step::Db { action: DbAction::Insert { name: p.0, email: p.1 } },
            None => Step::Reply {
                resp: Response {
                    status: Status::InternalError,
                    body: String::from_str("Internal error"),
                },
            },
        },
        Route::GetUser => match parse_i32(get_id(request)) {
            Some(id) => Step::Db { action: DbAction::SelectById { id } },
            None => Step::Reply {
                resp: Response {
                    status: Status::InternalError,
                    body: String::from_str("Internal error"),
                },
            },
        },
        Route::ListUsers => Step::Db { action: DbAction::SelectAll },
        Route::UpdateUser => match (parse_i32(get_id(request)), decode_user_payload(
            extract_body(request),
        )) {
            (Some(id), Some(p)) => Step::Db {
                action: DbAction::Update { id, name: p.0, email: p.1 },
            },
            _ => Step::Reply {
                resp: Response {
                    status: Status::InternalError,
                    body: String::from_str("Internal error"),
                },
            },
        },
        Route::DeleteUser => match parse_i32(get_id(request)) {
            Some(id) => Step::Db { action: DbAction::Delete { id } },
            None => Step::Reply {
                resp: Response {
                    status: Status::InternalError,
                    body: String::from_str("Internal error"),
                },
            },
        },
        Route::NoMatch => Step::Reply {
            resp: Response { status: Status::NotFound, body: String::from_str("404 not found") },
        },
    }
}

/// The response each store outcome maps to. Only a zero-row lookup or
/// delete is distinguished as not-found; every failure collapses to the
/// generic internal error.
pub open spec fn spec_respond(ev: DbEvent) -> (Status, Seq<char>) {
    match ev {
        DbEvent::Inserted => (Status::Success, "User created"@),
        DbEvent::RowFound { id, name, email } => (
            Status::Success,
            json_user(id as int, name@, email@),
        ),
        DbEvent::NoRow => (Status::NotFound, "User not found"@),
        DbEvent::AllRows { rows } => (
            Status::Success,
            json_user_list(rows@.map_values(|u: UserRow| u@)),
        ),
        DbEvent::Updated => (Status::Success, "User updated"@),
        DbEvent::Deleted { n } => if n == 0 {
            (Status::NotFound, "User not found"@)
        } else {
            (Status::Success, "User deleted"@)
        },
        DbEvent::Failed => (Status::InternalError, "Internal error"@),
    }
}

/// Maps a store outcome to its response.
pub fn respond(ev: DbEvent) -> (r: Response)
    ensures
        r.status == spec_respond(ev).0,
        r.body@ == spec_respond(ev).1,
{
    match ev {
        DbEvent::Inserted => Response {
            status: Status::Success,
            body: String::from_str("User created"),
        },
        DbEvent::RowFound { id, name, email } => Response {
            status: Status::Success,
            body: encode_user(id, name.as_str(), email.as_str()),
        },
        DbEvent::NoRow => Response {
            status: Status::NotFound,
            body: String::from_str("User not found"),
        },
        DbEvent::AllRows { rows } => Response {
            status: Status::Success,
            body: encode_user_list(&rows),
        },
        DbEvent::Updated => Response {
            status: Status::Success,
            body: String::from_str("User updated"),
        },
        DbEvent::Deleted { n } => if n == 0 {
            Response { status: Status::NotFound, body: String::from_str("User not found") }
        } else {
            Response { status: Status::Success, body: String::from_str("User deleted") }
        },
        DbEvent::Failed => Response {
            status: Status::InternalError,
            body: String::from_str("Internal error"),
        },
    }
}

/// Runs one store action against the in-memory store. The model store
/// is always reachable, so it never yields `Failed`; the relational
/// backend yields `Failed` for a connection or statement error.
pub fn execute_action(store: &mut UserStore, action: DbAction) -> (ev: DbEvent)
    requires
        old(store).wf(),
        old(store)@.next < 0x7fff_ffff,
    ensures
        final(store).wf(),
        match action {
            DbAction::Insert { name, email } => final(store)@ == spec_create(
                old(store)@,
                name@,
                email@,
            ).0 && ev is Inserted,
            DbAction::SelectById { id } => final(store)@ == old(store)@ && (match spec_get(
                old(store)@,
                id as int,
            ) {
                Some(rv) => ev matches DbEvent::RowFound { id: rid, name, email } && rid as int
                    == rv.id && name@ == rv.name && email@ == rv.email,
                None => ev is NoRow,
            }),
            DbAction::SelectAll => final(store)@ == old(store)@ && (ev matches DbEvent::AllRows {
                rows,
            } && rows@.map_values(|u: UserRow| u@) == old(store)@.rows),
            DbAction::Update { id, name, email } => final(store)@ == spec_update(
                old(store)@,
                id as int,
                name@,
                email@,
            ).0 && ev is Updated,
            DbAction::Delete { id } => final(store)@ == spec_delete(old(store)@, id as int).0 && (
            ev matches DbEvent::Deleted { n } && ((n == 0) <==> spec_get(
                old(store)@,
                id as int,
            ) is None)),
        },
{
    match action {
        DbAction::Insert { name, email } => {
            store.create(name, email);
            DbEvent::Inserted
        },
        DbAction::SelectById { id } => match store.get_by_id(id) {
            Some(u) => DbEvent::RowFound { id: u.id, name: u.name, email: u.email },
            None => DbEvent::NoRow,
        },
        DbAction::SelectAll => DbEvent::AllRows { rows: store.list_all() },
        DbAction::Update { id, name, email } => {
            store.update_by_id(id, name, email);
            DbEvent::Updated
        },
        DbAction::Delete { id } => {
            let hit = store.delete_by_id(id);
            DbEvent::Deleted { n: if hit { 1 } else { 0 } }
        },
    }
}

/// What one whole request does to the store and answers, from the
/// request text alone.
pub open spec fn spec_handle(req: Seq<char>, s: StoreModel) -> (StoreModel, Status, Seq<char>) {
    match spec_plan(req) {
        PlanModel::Reply { status, body } => (s, status, body),
        PlanModel::Insert { name, email } => (
            spec_create(s, name, email).0,
            Status::Success,
            "User created"@,
        ),
        PlanModel::SelectById { id } => match spec_get(s, id) {
            Some(rv) => (s, Status::Success, json_user(rv.id, rv.name, rv.email)),
            None => (s, Status::NotFound, "User not found"@),
        },
        PlanModel::SelectAll => (s, Status::Success, json_user_list(s.rows)),
        PlanModel::Update { id, name, email } => (
            spec_update(s, id, name, email).0,
            Status::Success,
            "User updated"@,
        ),
        PlanModel::Delete { id } => if spec_get(s, id) is Some {
            (spec_delete(s, id).0, Status::Success, "User deleted"@)
        } else {
            (s, Status::NotFound, "User not found"@)
        },
    }
}

/// One connection's worth of work against the in-memory store: parse,
/// route, execute, respond. The final clause is the generic-error law:
/// a non-numeric id token on any id-addressed route yields the internal
/// error, never not-found, and leaves the store untouched.
pub fn handle_request(request: &str, store: &mut UserStore) -> (r: Response)
    requires
        old(store).wf(),
        old(store)@.next < 0x7fff_ffff,
    ensures
        final(store).wf(),
        (final(store)@, r.status, r.body@) == spec_handle(request@, old(store)@),
        (route_of(request@) is GetUser || route_of(request@) is UpdateUser || route_of(
            request@,
        ) is DeleteUser) && !is_i32_literal(id_token_of(request@)) ==> r.status
            == Status::InternalError && r.body@ == "Internal error"@ && final(store)@ == old(
            store,
        )@,
{
    let step = plan_request(request);
    match step {
        Step::Reply { resp } => resp,
        Step::Db { action } => {
            let ev = execute_action(store, action);
            respond(ev)
        },
    }
}

} // verus!
