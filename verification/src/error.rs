//! Error taxonomy of the conversion engine.
//!
//! Fetching, parsing and merging fail per component; 3D model troubles only
//! downgrade that component's outcome. Messages are carried as raw bytes, like
//! every other piece of text in this crate.

use vstd::prelude::*;

verus! {

/// One failure class per stage of a component's pipeline.
#[derive(Debug, Clone)]
pub enum AppError {
    /// The input identifier is malformed (rejected before any work starts).
    InvalidIdentifier(String),
    /// The component data source failed (network error or unknown identifier).
    FetchFailure(String),
    /// The raw source text could not be parsed at all.
    ParseFailure(String),
    /// A target entity could not be rendered; indicates a broken builder.
    SerializeFailure(String),
    /// The library file could not be read or written during a merge.
    MergeFailure(String),
    /// The 3D model bytes could not be downloaded; never fatal for a component.
    ModelDownloadFailure(String),
    /// The 3D model bytes could not be transcoded; never fatal for a component.
    ModelTranscodeFailure(String),
    /// Anything outside the fixed taxonomy, such as bad argument combinations.
    Other(String),
}

impl AppError {
    /// A short stable label for the failure class, for reporting.
    pub fn label(&self) -> (r: &'static str)
        ensures
            r@ == self.spec_label(),
    {
        match self {
            AppError::InvalidIdentifier(_) => "invalid identifier",
            AppError::FetchFailure(_) => "fetch failure",
            AppError::ParseFailure(_) => "parse failure",
            AppError::SerializeFailure(_) => "serialize failure",
            AppError::MergeFailure(_) => "merge failure",
            AppError::ModelDownloadFailure(_) => "model download failure",
            AppError::ModelTranscodeFailure(_) => "model transcode failure",
            AppError::Other(_) => "error",
        }
    }

    /// What `label` returns for each variant.
    pub open spec fn spec_label(&self) -> Seq<char> {
        match self {
            AppError::InvalidIdentifier(_) => "invalid identifier"@,
            AppError::FetchFailure(_) => "fetch failure"@,
            AppError::ParseFailure(_) => "parse failure"@,
            AppError::SerializeFailure(_) => "serialize failure"@,
            AppError::MergeFailure(_) => "merge failure"@,
            AppError::ModelTranscodeFailure(_) => "model transcode failure"@,
            AppError::ModelDownloadFailure(_) => "model download failure"@,
            AppError::Other(_) => "error"@,
        }
    }
}

} // verus!
