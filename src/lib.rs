//! A ledger of reasoning steps ("thoughts") submitted one at a time.
//!
//! Each submission is validated, then recorded on the active timeline in one
//! of three ways: appended, revising an earlier step in place, or starting or
//! continuing a named branch copied from a prefix of the main timeline.

pub mod laws;
pub mod ledger;
pub mod request;
pub mod text;
pub mod thought;
