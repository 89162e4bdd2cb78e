//! A typed binding for the issue comments of a code hosting service's REST API.
//!
//! A [`comments::Comments`] handle is bound to a repository's issue and to a
//! client that carries requests. It composes the resource path and the query
//! string, hands the request to the client, and reads the reply into typed
//! records or a typed error.

pub mod client;
pub mod comments;
pub mod error;
pub mod json;
pub mod query;
pub mod serde_types;
pub mod text;
pub mod users;

