//! Interceptor pipeline around a generic RPC service: a double-submit-cookie
//! CSRF guard with optional origin allow-listing, and process-wide request
//! metrics, both written against verified header and origin models.

pub mod text;
pub mod headers;
pub mod origin;
pub mod token;
pub mod status;
pub mod internal;
pub mod metrics;
pub mod csrf;
pub mod chain;
pub mod jobs;
pub mod clients;
