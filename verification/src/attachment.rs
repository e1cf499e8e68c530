//! Attachments as they travel in the payload of an e-mail.

use vstd::prelude::*;

verus! {

/// An attachment, ready for delivery.
#[derive(Debug, Clone, PartialEq, Eq)]
pub struct SerializedAttachment {
    pub filename: Option<String>,
    pub content_type: String,
    pub size_bytes: u64,
    pub content_id: Option<String>,
    pub payload: AttachmentPayload,
}

/// Where the bytes of an attachment are.
#[derive(Debug, Clone, PartialEq, Eq)]
pub enum AttachmentPayload {
    /// In the payload itself, in base64.
    Inline { data_base64: String },
    /// In an S3-compatible bucket.
    S3 { url: String, presigned_url: Option<String> },
}

} // verus!
