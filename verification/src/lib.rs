//! Instrumentation layer for outbound gateway requests.
//!
//! The crate records the outcome of each request against a fixed taxonomy of
//! counters. A [`registry::MetricsRegistry`] pre-declares every counter series
//! that can ever be incremented (registration is an exhaustive cross-product
//! over the method catalog, the block tags and the failure reasons, never
//! driven by observed traffic). The recording functions then classify each
//! observed outcome and increment exactly the series the taxonomy assigns to
//! it, leaving the wrapped result untouched.
//!
//! The crate itself performs no I/O and never awaits: a caller wraps its
//! asynchronous operation, records the request up front, awaits the operation
//! elsewhere, and hands the observed terminal outcome back for recording.

pub mod error;
pub mod laws;
pub mod registry;
pub mod tag;
