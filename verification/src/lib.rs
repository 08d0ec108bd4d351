use vstd::prelude::*;

pub mod error;
pub mod text;
pub mod types;
pub mod urls;
pub mod manifest;
pub mod settings;
pub mod scheduler;
pub mod allocation;
pub mod manager;
pub mod http_executor;
pub mod parse;
pub mod http;
pub mod database;
pub mod speed_tracker;
pub mod topology;
pub mod file_ops;
pub mod rate_limit;
pub mod digest;

verus! {

} // verus!
