//! Deterministic leak detectors.
//!
//! House rules:
//!
//! * **No inference.** Every finding is arithmetic over cells that are in the file, and
//!   points back at the rows it used.
//! * **Every finding carries a [`crate::types::RemediationWindow`].** Telling a partner to
//!   drop seats they are contractually unable to drop is a serious bug, not a cosmetic one.
//! * **Policy constants live in dated tables**, never as literals in a branch, so that last
//!   quarter's file keeps reprocessing under last quarter's rules.
//! * **Suppress, never delete.** A finding below the noise threshold stays in the report
//!   and out of the headline.
//!
//! Implemented: [`est`] (`EST_UPLIFT`).

pub mod est;
