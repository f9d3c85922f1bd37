//! Bookmark keeping with tag enrichment: the rules of the service, stated and proved.
//!
//! The crate holds the decisions of a bookmark service and a model of its
//! records. Network and database traffic is left to the caller, which performs
//! the actions this crate asks for and hands back what came of them.
//!
//! - [`store`] is the store of credentials and bookmarks as a value, and
//!   [`laws`] is what holds of it whatever it contains.
//! - [`filter`] and [`query`] turn a list request into clauses and into the
//!   statement sent to the database.
//! - [`auth`], [`api`] and [`service`] are the credential guard and the
//!   answers of the HTTP surface.
//! - [`fetch`], [`excerpt`], [`tagger`] and [`worker`] are the ingestion of a
//!   bookmark's page, step by step.
//! - [`headers`], [`json`] and [`text`] are what the others read texts with,
//!   and [`admin`] issues credentials.

pub mod text;
pub mod model;
pub mod filter;
pub mod query;
pub mod store;
pub mod fetch;
pub mod headers;
pub mod excerpt;
pub mod json;
pub mod tagger;
pub mod worker;
pub mod api;
pub mod auth;
pub mod admin;
pub mod service;
pub mod laws;
