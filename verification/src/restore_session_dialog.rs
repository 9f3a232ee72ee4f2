//! The dialog that offers to bring the sessions of the last run back.

use vstd::prelude::*;

use crate::i18n::{fill, placeholder, Catalog, Language};
use crate::number::{decimal, decimal_text};
use crate::search::replaced;

verus! {

/// A session that can be brought back.
#[derive(Clone, Debug, PartialEq)]
pub struct RestoreSessionSummary {
    /// The title of its tab.
    pub name: String,
    /// Its kind and its host.
    pub detail: String,
    /// Whether recorded input is replayed to get it into its state.
    pub has_replay: bool,
}

/// How many sessions were found and when they were saved.
pub fn detected_text(
    session_count: usize,
    saved_at: &str,
    language: Language,
    catalog: &Catalog,
) -> (r: String)
    ensures
        r@ == replaced(
            catalog.text_with(
                language,
                "restore.detected"@,
                "session_count"@,
                decimal(session_count as nat),
            ),
            placeholder("saved_at"@),
            saved_at@,
        ),
{
    let count = decimal_text(session_count as u64);
    let text = catalog.tf_for(language, "restore.detected", "session_count", count.as_str());
    fill(text.as_str(), "saved_at", saved_at)
}

} // verus!
