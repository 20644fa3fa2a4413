//! Source loading pipeline for a sound catalog.
//!
//! The library decides; the caller performs. Network retrievals and catalog
//! merges are carried out by the caller, who reports each result back. What is
//! verified here is every decision in between: which retrieval may start, how
//! many may be outstanding, in which order outcomes are delivered, which merge
//! path a payload takes, and what a failure does under each policy.

pub mod source;
pub mod outcome;
pub mod loader;
pub mod fetcher;
pub mod orchestrator;
pub mod guarantees;
pub mod command;
pub mod render;
