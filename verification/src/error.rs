//! The error taxonomy of the library.
//!
//! Errors that outside collaborators raise (HTTP transport, JSON
//! serialization, storage backends) are carried as plain strings so that the
//! verified core never depends on an outside error type.

use vstd::prelude::*;

verus! {

/// Every failure the framework can surface.
#[derive(Debug)]
pub enum SlackError {
    /// The HTTP transport failed.
    Http(String),
    /// A JSON body could not be parsed.
    Json(String),
    /// The storage backend failed.
    DynamoDb(String),
    /// The serverless runtime failed.
    Lambda(String),
    /// The request's signature headers were missing or did not match.
    InvalidSignature,
    /// A required environment variable was not set.
    MissingEnvVar(String),
    /// The OAuth flow failed; the payload echoes the upstream error string.
    OAuth(String),
    /// The chat API returned an ok:false envelope.
    SlackApi { code: String, message: String },
    /// The application configuration is incomplete.
    Config(String),
    /// A URL could not be parsed.
    UrlParse(String),
    /// Catch-all for internal failures.
    Internal(String),
}

} // verus!
