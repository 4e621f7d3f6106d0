//! What can go wrong, and how it is reported.

use vstd::prelude::*;

verus! {

/// A selector picked nothing from the catalog.
#[derive(Clone, Debug, PartialEq, Eq)]
pub struct ResolutionError {
    /// The selector that could not be resolved, as the user typed it.
    pub token: String,
}

/// The text that reports an unresolved selector.
pub open spec fn unresolved_text(token: Seq<char>) -> Seq<char> {
    "Unable to find Node.js version: "@ + token
}

impl ResolutionError {
    /// The report for the user: it names the selector.
    pub fn message(&self) -> (m: String)
        ensures
            m@ == unresolved_text(self.token@),
    {
        String::from_str("Unable to find Node.js version: ").concat(self.token.as_str())
    }
}

/// An installation that could not be completed.
#[derive(Clone, Debug, PartialEq, Eq)]
pub enum InstallError {
    /// The address of the archive is not a URL.
    InvalidUrl,
    /// The download failed; the downloader's own report is carried as it came.
    Transport(String),
    /// Unpacking failed; the extractor's own report is carried as it came.
    Extraction(String),
}

/// The text that reports an address that is no URL.
pub open spec fn invalid_url_text() -> Seq<char> {
    "the archive address is not a valid URL"@
}

impl InstallError {
    /// The report for the user. A failure of the downloader or of the
    /// extractor is reported in that collaborator's own words.
    pub fn message(&self) -> (m: String)
        ensures
            m@ == match *self {
                InstallError::InvalidUrl => invalid_url_text(),
                InstallError::Transport(report) => report@,
                InstallError::Extraction(report) => report@,
            },
    {
        match self {
            InstallError::InvalidUrl => String::from_str("the archive address is not a valid URL"),
            InstallError::Transport(report) => report.clone(),
            InstallError::Extraction(report) => report.clone(),
        }
    }
}

} // verus!
