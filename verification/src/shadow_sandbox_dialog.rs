//! The dialogs around a command that runs aside: before it runs, and before its result is shared.

use vstd::prelude::*;

use crate::i18n::{Catalog, Language};
use crate::number::{signed_decimal, signed_decimal_text};
use crate::text::opt_text;

verus! {

/// The directory that a command runs in; a message where it is unknown.
pub fn working_directory_label(
    working_directory: Option<&str>,
    language: Language,
    catalog: &Catalog,
) -> (r: String)
    ensures
        r@ == (match working_directory {
            Some(path) => path@,
            None => catalog.text(language, "shadow.unknown"@),
        }),
{
    match working_directory {
        Some(path) => path.to_owned(),
        None => catalog.t_for(language, "shadow.unknown"),
    }
}

/// The exit code of a command; a message where there is none.
pub fn exit_label(exit_code: Option<i32>, language: Language, catalog: &Catalog) -> (r: String)
    ensures
        r@ == (match exit_code {
            Some(code) => signed_decimal(code as int),
            None => catalog.text(language, "shadow.exit_code_unavailable"@),
        }),
{
    match exit_code {
        Some(code) => signed_decimal_text(code as i64),
        None => catalog.t_for(language, "shadow.exit_code_unavailable"),
    }
}

/// The note that the output was cut off; none where it was not.
pub fn truncation_note(truncated: bool, language: Language, catalog: &Catalog) -> (r: Option<
    String,
>)
    ensures
        opt_text(r) == (if truncated {
            Some(
                catalog.text_with(language, "shadow.output_truncated"@, "limit"@, "64 KiB"@),
            )
        } else {
            None
        }),
{
    if truncated {
        Some(catalog.tf_for(language, "shadow.output_truncated", "limit", "64 KiB"))
    } else {
        None
    }
}

} // verus!
