//! Validation engine for the metadata of a versioned, hierarchical
//! scientific-image storage layout: coordinate axes, coordinate transforms,
//! multiscale pyramids, and plate/well/acquisition groupings.
//!
//! Every validator is a pure function of its input document and returns
//! either success or the first structural violation found, as a typed error.

pub mod util;
pub mod v0_4;
