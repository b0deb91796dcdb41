//! JSON-RPC requests and responses in the dialects 1.0 and 2.0: typed values,
//! and a codec between them and JSON text that decides the dialect of an
//! object from the set of its fields and accepts nothing that is not exactly
//! a value of one of the two.
//!
//! ```text
//! text --[text]--> document tree --[request, response]--> typed value
//! ```
//!
//! [`wire`] holds the entry points: [`decode_request`], [`encode_request`],
//! [`decode_response`], [`encode_response`], and `decode` and `encode` on
//! every type. [`laws`] holds what is proved of the codec as a whole.

pub mod codec;
pub mod error;
pub mod id;
pub mod json;
pub mod laws;
pub mod outside;
pub mod params;
pub mod request;
pub mod response;
pub mod text;
pub mod version;
pub mod wire;

pub use crate::codec::{DecodeError, EncodeError, Field};
pub use crate::error::{Error, ErrorCode};
pub use crate::id::Id;
pub use crate::json::{JsonValue, Member, Number};
pub use crate::params::Params;
pub use crate::request::{Call, MethodCall, Notification, Request};
pub use crate::response::{Failure, Output, Response, Success};
pub use crate::version::{Dialect, Version};
pub use crate::wire::{
    decode_request, decode_request_lenient, decode_response, encode_request, encode_response,
};
