//! Error taxonomy of the core.
//!
//! Workflow-state violations become `BadRequest` exactly at the point of
//! detection; authorization failures become `Forbidden`; uniqueness
//! violations become `Conflict`; a failure of the backing store surfaces as
//! `Store` and bubbles unchanged; `Task` stands for a failed background unit
//! of work.  Mapping these onto transport status codes belongs to an outer
//! layer.

use vstd::prelude::*;

verus! {

#[derive(Clone, Copy, PartialEq, Eq, Structural, Debug)]
pub enum Error {
    NotFound,
    BadRequest,
    Forbidden,
    Conflict,
    Store,
    Task,
}

} // verus!
