//! Staleness scanner for declared package dependencies.
//!
//! The crate normalizes dependency declarations, selects the latest
//! non-withdrawn release out of a registry version listing, compares the
//! declared requirement against that release, and renders the findings as a
//! tree-style text report.

pub mod deps;
pub mod registry;
pub mod report;
pub mod scan;
pub mod versions;
