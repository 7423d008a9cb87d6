//! Offline content synchronization engine.
//!
//! Given a list of URLs, the engine fetches each page, extracts its
//! meaningful content, stores the rendering as a local artifact, and keeps a
//! persistent URL-to-filename index so a host can later ask whether a URL is
//! available offline and retrieve the cached document without network access.
//!
//! The crate holds the verified core: filename derivation, content
//! extraction, the index, the batch state machine, and the availability
//! queries. Network and file access stay with the host, which drives the
//! state machine and performs the actions it decides.

pub mod extract;
pub mod filename;
pub mod index;
pub mod query;
pub mod strutil;
pub mod sync;
