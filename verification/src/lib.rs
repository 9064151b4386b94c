//! Streaming parser support and deterministic leak detectors for Microsoft Partner Center
//! license-based reconciliation exports (direct CSP, NCE, 2026 schema).
//!
//! Money is an exact decimal ([`Dec`]), never binary floating point. Cost is
//! `EffectiveUnitPrice x BillableQuantity`. Unknown columns are reported, not fatal, and a
//! bad cell costs that field, not the row. Reading bytes, gzip and CSV framing are left to
//! the caller: [`parser::RowStream`] takes the file one record at a time.

pub mod dec;
pub mod text;
pub mod date;
pub mod error;
pub mod numeric;
pub mod types;
pub mod parser;
pub mod detectors;
pub mod report;

pub use dec::Dec;
pub use date::Date;
pub use error::{CellError, ReconError, RowError, RowErrorKind};
pub use numeric::{first_percentage, parse_date, parse_decimal, unguard};
pub use parser::{ParseOptions, RowStream, StreamStats};
pub use types::{
    BillingCycle, BillingTerm, ChargeType, ReconRow, ReferenceId, ReferenceIdFields, RemediationWindow,
    TermDuration, CANONICAL_COLUMNS,
};
