//! A view of a browser location as plain data: a snapshot of its URL parts,
//! a working copy that callers edit, and the list of host writes that
//! committing those edits requires.

pub mod location;
pub mod query;
