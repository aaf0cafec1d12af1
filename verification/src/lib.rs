//! A verified record-management core for a single entity type ("Cube").
//!
//! The crate has two components, mirroring the service it supports:
//! a record store adapter ([`store`]) that owns the collection of persisted
//! records and exposes one typed operation per use case, and the request
//! handlers ([`handlers`]) that gate primitive inputs, invoke the adapter,
//! and shape its results into response outcomes.  Identifier syntax and
//! generation live in [`object_id`]; the entity itself in [`cube`].

pub mod cube;
pub mod handlers;
pub mod laws;
pub mod object_id;
pub mod store;
pub mod text;
