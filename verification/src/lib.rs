//! An in-memory user directory: validated text fields, calendar birth dates,
//! user records and the store that owns them, with every rule stated as a
//! contract over mathematical views.

pub mod date;
pub mod service;
pub mod store;
pub mod user;
pub mod validation;
