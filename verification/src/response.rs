//! Responses: the three fixed status preambles and the final text
//! written back to the peer.
use vstd::prelude::*;

verus! {

/// The only status preambles the service produces.
#[derive(PartialEq, Eq, Structural, Clone, Copy, Debug)]
pub enum Status {
    Success,
    NotFound,
    InternalError,
}

/// The protocol text of each status preamble.
pub open spec fn status_text(s: Status) -> Seq<char> {
    match s {
        Status::Success => "HTTP/1.1 200 OK\r\nContent-Type: application/json\r\n\r\n"@,
        Status::NotFound => "HTTP/1.1 404 NOT FOUND\r\n\r\n"@,
        Status::InternalError => "HTTP/1.1 500 INTERNAL ERROR\r\n\r\n"@,
    }
}

/// The status preamble as response text.
pub fn status_line(s: Status) -> (r: &'static str)
    ensures
        r@ == status_text(s),
{
    match s {
        Status::Success => "HTTP/1.1 200 OK\r\nContent-Type: application/json\r\n\r\n",
        Status::NotFound => "HTTP/1.1 404 NOT FOUND\r\n\r\n",
        Status::InternalError => "HTTP/1.1 500 INTERNAL ERROR\r\n\r\n",
    }
}

/// One complete response: a status preamble and a body.
#[derive(Debug)]
pub struct Response {
    pub status: Status,
    pub body: String,
}

/// Everything the peer receives: the preamble, then the body.
pub fn render(r: &Response) -> (t: String)
    ensures
        t@ == status_text(r.status) + r.body@,
{
    let mut out = String::from_str(status_line(r.status));
    out.append(r.body.as_str());
    out
}

} // verus!
