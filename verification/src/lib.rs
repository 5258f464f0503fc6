//! The data-access core of a daemon that manages cargoes: deployable
//! workloads, grouped into namespaces, each governed by a versioned
//! configuration, its spec.
//!
//! - [`key`]: the key of a cargo, derived from its namespace and its name.
//! - [`filter`] and [`query`]: filters as data, and their translation into
//!   the description of a read.
//! - [`text`]: the order of texts and the matching of patterns, by which the
//!   clauses of a filter are decided.
//! - [`models`]: the rows of the store and the objects that callers see.
//! - [`store`] and [`read`]: the relations, their rules, and what each
//!   operation does to them.
//! - [`repository`]: the capabilities that an entity opts into.
//! - [`cargo`]: the cargo entity, its reads and its hydration.
//! - [`flow`]: creating and changing a cargo turn by turn, for a store that
//!   is asked from outside.
//! - [`lifecycle`]: the same operations on the store in memory, and what
//!   holds of them.
//! - [`setup`] and [`metric`]: the decisions of the installer and of the
//!   metric listing.
//! - [`outside`]: the calls into other crates, taken on trust.
//! - [`error`]: the kinds of failure.
//!
//! Every function is verified against its contract. The contracts speak of
//! views: a text is the sequence of its characters, a store is the sequence
//! of its rows.

pub mod cargo;
pub mod error;
pub mod filter;
pub mod flow;
pub mod key;
pub mod lifecycle;
pub mod metric;
pub mod models;
pub mod outside;
pub mod query;
pub mod read;
pub mod repository;
pub mod setup;
pub mod store;
pub mod text;
