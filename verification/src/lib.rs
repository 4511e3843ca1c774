//! Synthesis of a BitBake recipe descriptor from a resolved Cargo
//! dependency graph.
//!
//! Each resolved dependency is classified by its origin ([`classify`]);
//! repositories are pinned to a revision ([`revision`]) and get a download
//! URL that the fetcher understands ([`fetch`]); the fetch locators
//! and auxiliary lines of all dependencies are merged into two ordered sets
//! ([`accumulate`]); the license expression is split and normalized
//! ([`license`]); and the project's own checkout decides on a version suffix
//! ([`version_pin`]). [`descriptor`] puts these together. Every function is
//! a pure function of its arguments, so the same graph always gives the
//! same descriptor, in whatever order the resolver lists it.

pub mod accumulate;
pub mod classify;
pub mod descriptor;
pub mod error;
pub mod fetch;
pub mod layout;
pub mod license;
pub mod lines;
pub mod metadata;
pub mod notice;
pub mod origin;
pub mod revision;
pub mod text;
pub mod version_pin;
