//! Errors.

use vstd::prelude::*;

verus! {

/// What can go wrong, each with a text that says what did.
#[derive(Debug, Clone)]
pub enum MsError {
    /// The session search tool is missing, failed, or gave output that cannot be read.
    CassUnavailable(String),
    /// What was asked for does not exist.
    SkillNotFound(String),
    /// A transaction failed; it may be tried again.
    TransactionFailed(String),
    /// Nothing could be extracted from a session.
    MiningFailed(String),
    /// The database refused a statement or gave a row that cannot be read.
    Database(String),
    /// A stored value cannot be decoded.
    Serialization(String),
    /// A value cannot be encoded or decoded as configured.
    Config(String),
    /// A row that was to be changed does not exist.
    NotFound(String),
    /// Reading, writing or running something failed.
    Io(String),
}

/// What an error is.
#[verifier::ext_equal]
pub ghost enum ErrorView {
    CassUnavailable(Seq<char>),
    SkillNotFound(Seq<char>),
    TransactionFailed(Seq<char>),
    MiningFailed(Seq<char>),
    Database(Seq<char>),
    Serialization(Seq<char>),
    Config(Seq<char>),
    NotFound(Seq<char>),
    Io(Seq<char>),
}

impl View for MsError {
    type V = ErrorView;

    open spec fn view(&self) -> ErrorView {
        match self {
            MsError::CassUnavailable(t) => ErrorView::CassUnavailable(t@),
            MsError::SkillNotFound(t) => ErrorView::SkillNotFound(t@),
            MsError::TransactionFailed(t) => ErrorView::TransactionFailed(t@),
            MsError::MiningFailed(t) => ErrorView::MiningFailed(t@),
            MsError::Database(t) => ErrorView::Database(t@),
            MsError::Serialization(t) => ErrorView::Serialization(t@),
            MsError::Config(t) => ErrorView::Config(t@),
            MsError::NotFound(t) => ErrorView::NotFound(t@),
            MsError::Io(t) => ErrorView::Io(t@),
        }
    }
}

} // verus!
