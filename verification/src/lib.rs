//! A verified core for a small user-record service: it parses raw
//! request text, routes it to one CRUD action, models the record store,
//! and renders the response. The network edge and the relational store
//! live outside the library and drive it through plain values.
pub mod dispatch;
pub mod json;
pub mod response;
pub mod router;
pub mod store;
pub mod text;
