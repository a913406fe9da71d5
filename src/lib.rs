//! Flashcard stacks and cards kept in two stores at once: the authoritative
//! per-account record repositories, and a local relational cache that answers
//! read queries. This crate holds the synchronisation logic between the two.

pub mod cache;
pub mod clock;
pub mod clone;
pub mod coordinator;
pub mod db;
pub mod forms;
pub mod lang;
pub mod laws;
pub mod reconciler;
pub mod records;
pub mod templates;
