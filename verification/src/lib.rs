//! An in-memory store of geotagged garbage reports.
//!
//! A caller hands in the bytes of a picture together with the place where it
//! was taken. The store fingerprints the picture, gives the report the next
//! free identifier and keeps it for later lookup.
//!
//! `model` says what the store holds and how a submission changes it,
//! `history` what a whole run of submissions adds up to, and `store` is the
//! store that runs.

pub mod fingerprint;
pub mod history;
pub mod model;
pub mod report;
pub mod store;
