//! Core library for reconciling a locally subscribed item collection against
//! externally defined "keep" lists and removing the items no list references.
//!
//! The library holds the verified logic; the surrounding process (window or
//! console, file reading, the external service connection itself) calls into
//! it and renders what it produces.
//!
//! - [`presets`]: the item and keep-list model, and loading a keep list from
//!   a structured document.
//! - [`urlid`]: extracting an item identifier from a URL.
//! - [`reconcile`]: the pure diff engine from (universe, keep lists,
//!   excluded tags) to the ordered removal candidate list, with its laws.
//! - [`text`]: the case-insensitive name order the lists are sorted by.
//! - [`bridge`]: one-shot delivery between the service's callbacks and a
//!   waiting requester, and what a completed exchange means.
//! - [`service`]: the worker loop's pump/stop decisions and the idempotent
//!   shutdown flag.
//! - [`batch`]: the sequential removal batch, its failure summary, and the
//!   progress pair it publishes atomically.
//! - [`modrow`]: the selection rows shown to the user and their aggregates.

pub mod batch;
pub mod bridge;
pub mod modrow;
pub mod presets;
pub mod reconcile;
pub mod service;
pub mod text;
pub mod urlid;
