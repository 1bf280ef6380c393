//! Core of an uptime monitor: probe records, the durable history format,
//! and the decisions of the recording job and of the history endpoint.

mod clock;
pub mod decimal;
pub mod history;
pub mod laws;
pub mod probe;
pub mod reader;
pub mod record;
pub mod recorder;
pub mod store;
pub mod wire;
