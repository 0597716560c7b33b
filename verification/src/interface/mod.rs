pub mod general;
pub mod proto;
pub mod transaction;
