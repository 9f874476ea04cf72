//! Structured harvesting of court-decision records: era-based Japanese date
//! normalization, label-driven field dispatch into case records, and the
//! pagination arithmetic of a date-filtered result listing.
//!
//! The modules hold the domain logic with full contracts; transport, HTML
//! traversal and file output are collaborators that hand plain values in
//! and take plain values out.

pub mod date;
pub mod error;
pub mod link;
pub mod paging;
pub mod record;
pub mod text;
