//! Routing: a fixed, ordered table of path-prefix tests mapping a raw
//! request to one action.
use vstd::prelude::*;
use crate::text::seq_starts_with;
use crate::text::starts_with;

verus! {

/// The action a request is routed to.
#[derive(PartialEq, Eq, Structural, Clone, Copy, Debug)]
pub enum Route {
    CreateUser,
    GetUser,
    ListUsers,
    UpdateUser,
    DeleteUser,
    NoMatch,
}

/// The routing table, in its fixed priority order. The single-record
/// read is tested before the collection read: `GET /users/<id>` also
/// matches the broader `GET /users` prefix, so swapping those two rules
/// would send every single-record read to the listing.
pub open spec fn route_of(req: Seq<char>) -> Route {
    if seq_starts_with(req, "POST /users"@) {
        Route::CreateUser
    } else if seq_starts_with(req, "GET /users/"@) {
        Route::GetUser
    } else if seq_starts_with(req, "GET /users"@) {
        Route::ListUsers
    } else if seq_starts_with(req, "PUT /users/"@) {
        Route::UpdateUser
    } else if seq_starts_with(req, "DELETE /users/"@) {
        Route::DeleteUser
    } else {
        Route::NoMatch
    }
}

/// Selects exactly one action for the raw request text by the ordered
/// prefix tests of `route_of`.
pub fn route(request: &str) -> (r: Route)
    ensures
        r == route_of(request@),
{
    if starts_with(request, "POST /users") {
        Route::CreateUser
    } else if starts_with(request, "GET /users/") {
        Route::GetUser
    } else if starts_with(request, "GET /users") {
        Route::ListUsers
    } else if starts_with(request, "PUT /users/") {
        Route::UpdateUser
    } else if starts_with(request, "DELETE /users/") {
        Route::DeleteUser
    } else {
        Route::NoMatch
    }
}

} // verus!
