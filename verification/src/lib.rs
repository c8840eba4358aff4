//! A typed client core for the Twitch Helix API.
//!
//! The crate turns request values into URIs, checks the scopes of a credential
//! before anything is sent, decodes response envelopes into typed items and
//! decides, page by page, how a cursor-paged listing is walked. It performs no
//! I/O: the caller sends each [`transport::HttpRequest`] and hands back the
//! [`transport::HttpResponse`].
//!
//! - [`query`]: parameters to query text, percent-encoded.
//! - [`scope`]: required scopes against granted scopes.
//! - [`request`]: what an endpoint states about itself; URIs and prepared
//!   requests.
//! - [`json`], [`response`]: response bodies to envelopes of typed items, all
//!   or nothing.
//! - [`client`]: one exchange, and the walk through the pages of a listing.
//! - [`games`], [`subscriptions`], [`types`]: endpoints and their items.
//! - [`transport`], [`error`], [`decimal`], [`text`]: the plain values that the
//!   others share.
pub mod client;
pub mod decimal;
pub mod error;
pub mod games;
pub mod json;
pub mod query;
pub mod request;
pub mod response;
pub mod scope;
pub mod subscriptions;
pub mod text;
pub mod transport;
pub mod types;
