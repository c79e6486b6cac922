//! Host security and health audit: checks over one snapshot of a host, an
//! engine that runs them in registration order, and the scoring of what they
//! report.
//!
//! The library reads nothing from the host itself. Whoever uses it reads the
//! host and hands over what was found; the library decides what it means.

pub mod checks;
pub mod cli;
pub mod collectors;
pub mod engine;
pub mod json;
pub mod model;
pub mod report;
pub mod text;
