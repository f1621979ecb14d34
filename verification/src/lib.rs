//! Core of an academic pre-publication and peer-review backend.
//!
//! The library is built in two layers.  The lower layer is an
//! ownership-aware entity store: records are wrapped in an [`store::Entity`]
//! envelope carrying an identity and a pair of timestamps, and grouped into
//! typed collections inside one [`db::Db`] value whose logical clock stamps
//! every mutation.  The upper layer is the thesis-version review workflow:
//! committing new versions, sending a version out for review, editor
//! adjudication and referee quorum logic, together with the cascading
//! cleanups ("windup") that keep cross-collection references tidy when
//! owners, collections or theses are deleted.

pub mod attached;
pub mod auth;
pub mod crud;
pub mod db;
pub mod errs;
pub mod examples;
pub mod idset;
pub mod laws;
pub mod names;
pub mod owned;
pub mod paper;
pub mod profile;
pub mod review;
pub mod store;
pub mod thesis;
pub mod util;
pub mod version;
pub mod views;
pub mod wire;
pub mod workflow;
