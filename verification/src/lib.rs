//! Tiered data-acquisition pipeline for a client-rendered tier-list site.
//!
//! The pipeline turns "fetch structured build records from an unreliable
//! single-page application" into a best-effort, self-describing result:
//! rendered-DOM capture, embedded-state extraction by pattern matching,
//! structural HTML parsing, and ordered endpoint probing with response
//! classification. Network and browser work is performed by the caller;
//! this crate holds every decision the pipeline makes.

pub mod json;
pub mod numfmt;
pub mod pattern;
pub mod pipeline;
pub mod probe;
pub mod proxy;
pub mod structural;
pub mod text;
pub mod winrate;
