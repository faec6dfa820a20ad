//! What holds of the library as a whole, operation by operation.

pub mod asking;
pub mod calls;
pub mod daemons;
pub mod http;
pub mod http1;
pub mod lines;
pub mod messages;
pub mod objects;
pub mod offers;
pub mod origins;
pub mod requests;
pub mod schemas;
pub mod sessions;
pub mod tasks;
pub mod texts;
pub mod times;
pub mod waits;
pub mod wire;
pub mod words;
