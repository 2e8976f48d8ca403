//! Whether citations are rendered, and with which bibliography.
use vstd::prelude::*;

use crate::config::{lookup_str, ConfigEntry, ConfigTable};
use crate::error::PandocError;
use crate::settings::{setting_in, Feature, PandocConfig, PandocSetting};

verus! {

/// The bibliography file and citation style handed to the converter.
pub struct BibliographyConfig {
    pub bibliography: String,
    pub bibliography_style: String,
}

impl BibliographyConfig {
    pub fn new(bibliography: String, bibliography_style: String) -> (r: Self)
        ensures
            r.bibliography@ == bibliography@,
            r.bibliography_style@ == bibliography_style@,
    {
        BibliographyConfig { bibliography, bibliography_style }
    }
}

/// The bibliography as a pair (file, style), if there is one.
pub open spec fn bibliography_view(b: Option<BibliographyConfig>) -> Option<(Seq<char>, Seq<char>)> {
    match b {
        Some(c) => Some((c.bibliography@, c.bibliography_style@)),
        None => None,
    }
}

/// The bibliography that a settings table and the raw configuration call for:
/// only when citations are transpiled, and then both keys must hold strings.
pub open spec fn bibliography_gate(
    s: Seq<(Feature, PandocSetting)>,
    entries: Seq<ConfigEntry>,
) -> Result<Option<(Seq<char>, Seq<char>)>, PandocError> {
    if setting_in(s, Feature::Citations) == Some(PandocSetting::Transpile) {
        match (lookup_str(entries, "bibliography"@), lookup_str(entries, "bibliography-style"@)) {
            (Some(b), Some(style)) => Ok(Some((b, style))),
            _ => Err(PandocError::IncompleteBibliography),
        }
    } else {
        Ok(None)
    }
}

/// Reads the bibliography settings when the settings table transpiles citations.
pub fn bibliography_config(config: &PandocConfig, table: &ConfigTable) -> (r: Result<
    Option<BibliographyConfig>,
    PandocError,
>)
    ensures
        match r {
            Ok(b) => bibliography_gate(config@, table.entries@) == Ok::<
                Option<(Seq<char>, Seq<char>)>,
                PandocError,
            >(bibliography_view(b)),
            Err(e) => bibliography_gate(config@, table.entries@) == Err::<
                Option<(Seq<char>, Seq<char>)>,
                PandocError,
            >(e),
        },
{
    match config.get(Feature::Citations) {
        Some(PandocSetting::Transpile) => {
            match (table.get_str("bibliography"), table.get_str("bibliography-style")) {
                (Some(bib), Some(style)) => Ok(Some(BibliographyConfig::new(bib, style))),
                _ => Err(PandocError::IncompleteBibliography),
            }
        },
        _ => Ok(None),
    }
}

} // verus!
