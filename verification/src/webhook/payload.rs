//! The messages that the webhook dispatcher receives, and what they carry.

use crate::attachment::SerializedAttachment;
use std::collections::HashMap;
use vstd::prelude::*;

verus! {

/// An e-mail as it is forwarded. What is `None` is left out of the JSON object.
#[derive(Debug, Clone)]
pub struct EmailPayload {
    pub sender: String,
    pub sender_name: Option<String>,
    pub recipient: String,
    pub subject: String,
    pub body: String,
    pub html_body: Option<String>,
    pub headers: Option<HashMap<String, String>>,
    pub attachments: Option<Vec<SerializedAttachment>>,
    /// The outcome of the DMARC evaluation: `pass`, `fail`, `none` or `temperror`; `None` when
    /// DMARC is off.
    pub dmarc_result: Option<String>,
    /// The address of the `From:` header, when DMARC has passed.
    pub authenticated_from: Option<String>,
}

/// An e-mail is to be forwarded.
#[derive(Debug, Clone)]
pub struct ForwardEmail {
    pub payload: EmailPayload,
}

/// An e-mail was delivered, or given up.
#[derive(Debug, Clone)]
pub struct WebhookResult {
    pub success: bool,
    /// The sender of the e-mail.
    pub sender_info: String,
}

} // verus!
