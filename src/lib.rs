use vstd::prelude::*;

pub mod auth;
pub mod batcher;
pub mod bucket;
pub mod bulk;
pub mod config;
pub mod create;
pub mod dispatch;
pub mod error;
pub mod events;
pub mod insert;
pub mod models;
pub mod schedule;
pub mod scheduler;
pub mod sender;
pub mod status;
pub mod store;
pub mod text;

verus! {

} // verus!
