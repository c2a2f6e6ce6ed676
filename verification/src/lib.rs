//! A single-process HTTP reverse proxy core: routing of inbound requests to
//! named backend targets, planning of the outbound request (URI and headers),
//! and rewriting of absolute-root-path references in HTML, CSS and JavaScript
//! bodies so that they stay inside the proxy's path space.
//!
//! The surrounding process (listener, upstream client, header maps) lives
//! outside this crate and exchanges plain byte strings with it.

pub mod bytes;
pub mod lits;
pub mod outside;
pub mod plan;
pub mod registry;
pub mod respond;
pub mod rewrite;
pub mod route;
