//! Session credentials for a courier platform: a cache of short-lived
//! tokens by account, the re-authentication that refills it, and the
//! search for the token in responses whose shape is not fixed.
//!
//! - [`session`]: account keys and tokens with their instants.
//! - [`cache`]: at most one token for each account, with eviction.
//! - [`extractor`]: the places where a token may stand, in a fixed order.
//! - [`backend`]: what is sent to the authentication endpoint and what an
//!   exchange with it amounts to.
//! - [`orchestrator`]: serving valid tokens, one exchange at a time for
//!   each account.
//! - [`framing`]: response bodies that may arrive wrapped in base64.
//! - [`tournee`] and [`validation`]: reading a delivery round and tallying
//!   the validation of its addresses.
//! - [`config`]: the settings of the service.
//! - [`json`], [`text`], [`clock`]: the values and helpers the rest is
//!   built on.

pub mod backend;
pub mod cache;
pub mod clock;
pub mod config;
pub mod extractor;
pub mod framing;
pub mod json;
pub mod orchestrator;
pub mod session;
pub mod text;
pub mod tournee;
pub mod validation;
