//! A verified time-and-attendance ledger: employees register entry and exit
//! events, administrators filter, edit and delete them, and the library
//! derives daily presence statistics. Records, employees and the
//! configuration row live in an in-memory store whose operations carry full
//! contracts; callers persist the store however they like.

pub mod employees;
pub mod filters;
pub mod laws;
pub mod model;
pub mod sort;
pub mod stats;
pub mod store;
pub mod text;
pub mod time;
