//! A bridge from HTTP webhooks to a message broker, as a library of
//! decisions.
//!
//! Producers post events to per-handler URLs. For each event the library
//! decides whether it is authenticated ([`signature`]), whether the
//! handler's filters let it pass and which topic its routes pick
//! ([`filter`], over the paths of [`path`] in the documents of [`json`]),
//! and what is published ([`handlers`]). Handlers are declared as cluster
//! resources ([`crd`]); the reconciler ([`controller`]) mirrors them into
//! the routing table ([`state`]).
//!
//! The library performs no I/O. The server, the broker client and the
//! cluster client call it with what they received and act on what it
//! returns.

pub mod config;
pub mod controller;
pub mod crd;
pub mod filter;
pub mod handler_id;
pub mod handlers;
pub mod json;
pub mod kafka;
pub mod path;
pub mod signature;
pub mod state;
pub mod text;
