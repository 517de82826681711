//! Budgeted selection of scored test items behind a shared-secret check.
//!
//! A request carries a secret, a list of items with integer values and a
//! budget. When the secret matches the configured key, the items are sorted
//! ascending by value and the leading run of items whose value is below the
//! budget is returned, together with the time the selection took.

pub mod model;
pub mod select;
pub mod auth;
pub mod handler;



