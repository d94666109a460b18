//! HTTP Signatures for the runtime: the same signing and verification as
//! the core's.

pub use crate::signature::{
    key_id_from_header, sign_request, sign_request_at, verify_request, SignatureError,
    SignedHeaders,
};
