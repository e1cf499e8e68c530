//! The webhook: which requests go out, how they are signed, and when they are tried again.

pub mod client;
pub mod delivery;
pub mod laws;
pub mod payload;
pub mod plain_http;
pub mod signature;
pub mod state;

pub use crate::webhook::client::{Transport, WebhookClient, WebhookError, WebhookRequest};
pub use crate::webhook::delivery::{AttemptOutcome, Delivery, DeliveryStep};
pub use crate::webhook::payload::{EmailPayload, ForwardEmail, WebhookResult};
pub use crate::webhook::plain_http::allows_plain_http;
pub use crate::webhook::signature::{compute_signature, SIGNATURE_HEADER, TIMESTAMP_HEADER};
pub use crate::webhook::state::{ForwardDecision, WebhookState};
