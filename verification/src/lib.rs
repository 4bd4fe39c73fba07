//! Open pull requests of a code-hosting organization, by assignee: who
//! owes an answer on which repository's open pull requests.

pub mod text;
pub mod model;
pub mod aggregate;
pub mod invariants;
pub mod json;
pub mod decode;
pub mod engine;
pub mod table;
