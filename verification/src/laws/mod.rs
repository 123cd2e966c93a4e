//! What the operations are for, said of the operations themselves.
//!
//! Each law is about what a call may return and leave behind: it follows from
//! the contracts of the functions that it names, whatever terms they are put in.

pub mod budgets;
pub mod texts;
pub mod layouts;
pub mod presence;
pub mod updates;
pub mod documents;
pub mod spaces;
pub mod setup;
pub mod bridge;
pub mod numbers;
pub mod agents;
pub mod sessions;
pub mod bots;
pub mod registry;
