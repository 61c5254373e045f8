//! Verified engine for pulling one-time verification codes out of a mailbox.
//!
//! The crate models the matching grammar (code shapes, contextual marker
//! phrases), the message decoding rules (header lookup, sender formatting),
//! the tiered code extractor, and the polling schedule of the inbox monitor.
//! Network and file I/O live outside the library and drive it through the
//! public functions.

pub mod alias;
pub mod config;
pub mod decode;
pub mod extract;
pub mod i18n;
pub mod monitor;
pub mod pattern;
pub mod routes;
pub mod text;
