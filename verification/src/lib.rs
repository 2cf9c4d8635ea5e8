//! A financial option contract as a plain value, with a one-line description
//! of it, and the calendar date that its expiration is held as.

pub mod date;
pub mod option;
