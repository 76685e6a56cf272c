//! A library for a terminal system-information fetcher.
//!
//! The heart of the crate is a platform-probing data-collection layer: each
//! host fact (OS name, kernel, CPU, memory, ...) has a detector that tries an
//! ordered list of sources and falls back gracefully, and an orchestrator
//! merges the cheap synchronous probes with the results of the slow,
//! concurrently-run ones into a single fact registry.  All parsing and
//! merging logic is verified; reading files, spawning utilities and
//! rendering output live outside the library and hand it plain values.

pub mod cache;
pub mod config;
pub mod display;
pub mod info;
pub mod numerals;
pub mod probes;
pub mod text;
pub mod uwufy;
