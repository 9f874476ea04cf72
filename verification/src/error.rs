//! The error taxonomy. Every variant is fatal to the run that raises it;
//! the only recoverable condition — an unknown field label — is not an
//! error but a skipped dispatch.

use vstd::prelude::*;

verus! {

/// The record slots a known label can route to; also names the field a
/// validation failure found missing.
#[derive(Clone, Copy, Debug, PartialEq, Eq, Structural)]
pub enum Slot {
    CaseNumber,
    CaseName,
    JudgmentDate,
    CourtName,
    RightType,
    LawsuitType,
    ResultType,
    ResultText,
    ArticleInfo,
    OriginalCourtName,
    OriginalCaseNumber,
    OriginalResult,
    OriginalDate,
    CaseField,
    Gist,
    CaseGist,
    RefLaw,
    FullTextLink,
}

/// What can go fatally wrong while harvesting.
#[derive(Clone, Copy, Debug, PartialEq, Eq, Structural)]
pub enum Error {
    /// A numeric or composed date lies outside every known era, or a month
    /// or day breaks its syntactic bound.
    DateRange,
    /// A free-text date matches neither era-text shape, or a numeric part
    /// of it overflows.
    EraTextFormat,
    /// A free-text date names an era outside the closed era set.
    UnknownEra,
    /// The required full-text anchor carries no link target.
    MissingRequiredLink,
    /// A required record field was never populated; carries the slot that
    /// is missing.
    IncompleteRecord(Slot),
    /// A detail-page link does not embed a usable trial-type digit or id.
    UnexpectedLinkShape,
    /// A listing page shows no readable result count.
    MissingResultCount,
}

impl Error {
    /// A short human-readable name for the error, for the diagnostics of
    /// an embedding program.
    pub fn describe(&self) -> &'static str {
        match self {
            Error::DateRange => "date out of the known era ranges",
            Error::EraTextFormat => "unparseable era-text date",
            Error::UnknownEra => "unknown era name",
            Error::MissingRequiredLink => "required link target missing",
            Error::IncompleteRecord(_) => "required record field missing",
            Error::UnexpectedLinkShape => "link of an unexpected shape",
            Error::MissingResultCount => "result count not found",
        }
    }
}

} // verus!
