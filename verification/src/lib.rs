//! Verification of identity tokens issued by Google's sign-in service.
//!
//! The crate holds the logic of the verification pipeline: parsing the
//! `Cache-Control` directives that govern how long a downloaded key set may
//! be reused, the key cache with its single-flight refresh discipline, key
//! selection for a token, and the issuer / audience / hosted-domain policy
//! gate over the decoded claims. Network transport, signature checking and
//! JSON decoding are outside collaborators: the embedding application does
//! the I/O, and the JOSE engine is called through a few trusted wrappers.

pub mod api;
pub mod cache_control;
pub mod certs;
pub mod client;
pub mod error;
pub mod jose;
pub mod token;

pub use api::TokenInfo;
pub use cache_control::CacheControl;
pub use cache_control::Cachability;
pub use certs::CacheDecision;
pub use certs::CachePhase;
pub use certs::CachedCerts;
pub use certs::Cert;
pub use client::Client;
pub use error::Error;
pub use token::IdInfo;
