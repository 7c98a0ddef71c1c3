//! A constant-rate HTTP load generator's scheduling core: a fixed budget of request
//! slots, each due at a fixed instant, drawn once each by a set of connection workers
//! that pace their requests to the slots' deadlines, reconnect without losing a slot,
//! and keep every response body that differs from the expected one.

pub mod allocator;
pub mod run;
pub mod schedule;
pub mod validate;
pub mod worker;
