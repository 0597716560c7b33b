//! Crates that users of these interface types need to (de)serialize them,
//! re-exported so that they agree on the versions.
pub use chrono;
pub use serde_json;
