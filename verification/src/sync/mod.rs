//! The sync engine's decisions: what to ask GitHub for, what to store of each
//! answer, and when to go on.
pub mod dismiss;
pub mod engine;
pub mod notifications;
pub mod paging;
pub mod repos;
pub mod runs;
pub mod subjects;
pub mod subscriptions;
pub mod watches;
