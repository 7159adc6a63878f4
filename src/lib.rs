//! An in-process user directory: validated user records, a capacity-bounded
//! repository that assigns identities, and a service that summarises it.

pub mod clock;
pub mod error;
pub mod user;
pub mod repository;
pub mod service;
pub mod numeric;
pub mod history;
