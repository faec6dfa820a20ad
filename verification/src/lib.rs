//! A synchronous server library for the Model Context Protocol.

pub mod ask;
pub mod broker;
pub mod bytes;
pub mod calendar;
pub mod calls;
pub mod capabilities;
pub mod chronology;
pub mod dispatch;
pub mod env;
pub mod json;
pub mod laws;
pub mod lists;
pub mod log;
pub mod order;
pub mod pagination;
pub mod params;
pub mod protocol;
pub mod provider;
pub mod round_trip;
pub mod sampling;
pub mod schema;
pub mod server;
pub mod session;
pub mod socket;
pub mod task_requests;
pub mod tasks;
pub mod text;
pub mod transport;
pub mod types;
