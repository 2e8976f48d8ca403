//! Errors of the preprocessor.
use vstd::prelude::*;

use crate::settings::{feature_name, Feature};

verus! {

/// Why a run of the preprocessor cannot go on.
#[derive(Debug, Clone, Copy, PartialEq, Eq, Structural)]
pub enum PandocError {
    /// The book's configuration has no table for this preprocessor.
    ConfigMissing,
    /// A feature is set to something other than "transpile" or "preserve".
    InvalidFeatureValue(Feature),
    /// Citations are transpiled but `bibliography` or `bibliography-style` is missing.
    IncompleteBibliography,
    /// The converter could not be started.
    ProcessSpawnFailed,
    /// The converter's input or output could not be handled.
    ProcessIoFailed,
    /// The host's version, or the version this preprocessor was built
    /// against, is not a valid version.
    MalformedVersion,
}

/// The text that reports an error.
pub open spec fn error_message(e: PandocError) -> Seq<char> {
    match e {
        PandocError::ConfigMissing => "No config table for citeproc preprocessor"@,
        PandocError::InvalidFeatureValue(f) => feature_name(f)
            + " must be either \"transpile\" or \"preserve\""@,
        PandocError::IncompleteBibliography =>
            "citations set to transpile so bibliography-style and bibliography option must be provided!"@,
        PandocError::ProcessSpawnFailed => "failed to spawn pandoc"@,
        PandocError::ProcessIoFailed => "failed to exchange data with pandoc"@,
        PandocError::MalformedVersion => "invalid mdbook version"@,
    }
}

impl PandocError {
    /// The text that reports this error.
    pub fn message(&self) -> (r: String)
        ensures
            r@ == error_message(*self),
    {
        match self {
            PandocError::ConfigMissing => "No config table for citeproc preprocessor".to_owned(),
            PandocError::InvalidFeatureValue(f) => {
                let mut m = f.name().to_owned();
                m.append(" must be either \"transpile\" or \"preserve\"");
                m
            },
            PandocError::IncompleteBibliography =>
                "citations set to transpile so bibliography-style and bibliography option must be provided!".to_owned(),
            PandocError::ProcessSpawnFailed => "failed to spawn pandoc".to_owned(),
            PandocError::ProcessIoFailed => "failed to exchange data with pandoc".to_owned(),
            PandocError::MalformedVersion => "invalid mdbook version".to_owned(),
        }
    }
}

} // verus!
