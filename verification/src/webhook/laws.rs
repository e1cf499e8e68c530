//! What the operations of the webhook do, call by call.

pub mod address;
pub mod delivery;
pub mod dispatch;
pub mod request;
