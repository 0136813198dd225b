//! A client library for a school-scheduling web API: it exchanges an
//! authorization code for an access token, then fetches the appointments
//! within a time range, returning them sorted by start time.
//!
//! The library holds the verified logic: URL construction, the textual
//! renaming of wire property names to domain field names, extraction of
//! appointment records from the parsed response, the stable sort by start
//! time, and the client state changes. The HTTP requests themselves live
//! outside it; JSON parsing is done by `serde_json` behind a small set of
//! trusted declarations.

pub mod appointment;
pub mod error;
pub mod extract;
pub mod json;
pub mod rename;
pub mod schedule;
pub mod sort;
pub mod text;
pub mod url;
