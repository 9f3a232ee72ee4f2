//! The popup that offers credentials at a prompt. It shows names only, never what is sent.

use vstd::prelude::*;

use crate::i18n::{fill, placeholder, Catalog, Language};
use crate::search::{contains_text, holds_text, replaced};
use crate::text::{chars_of, lowercase, same, trim, trimmed};

verus! {

/// A credential that fits the prompt.
#[derive(Clone, Debug, PartialEq)]
pub struct OneKeyMatch {
    pub name: String,
    pub label: String,
    pub matched_expect: String,
}

/// The number of rows that are shown.
pub open spec fn rows_shown(count: int, max_rows: int) -> int {
    if count < max_rows {
        count
    } else {
        max_rows
    }
}

/// How many of the credentials are shown, and which of them is highlighted: the chosen one, the
/// last one where fewer are shown.
pub fn popup_rows(count: usize, max_rows: usize, selected: usize) -> (r: (usize, usize))
    ensures
        r.0 == rows_shown(count as int, max_rows as int),
        r.1 == (if selected < r.0 {
            selected as int
        } else if r.0 > 0 {
            r.0 - 1
        } else {
            0
        }),
{
    let shown: usize = if count < max_rows {
        count
    } else {
        max_rows
    };
    let highlighted: usize = if selected < shown {
        selected
    } else if shown > 0 {
        shown - 1
    } else {
        0
    };
    (shown, highlighted)
}

/// The label of a credential: the usual ones in the user's language, any other as it is.
pub open spec fn label_shown(label: Seq<char>, language: Language, catalog: &Catalog) -> Seq<char> {
    let label = trimmed(label);
    if label.len() == 0 || label == "Credential"@ {
        catalog.text(language, "onekey.credential"@)
    } else if label == "Password"@ {
        catalog.text(language, "onekey.credential_password"@)
    } else if label == "Token"@ {
        catalog.text(language, "onekey.credential_token"@)
    } else if label == "Username"@ {
        catalog.text(language, "onekey.credential_username"@)
    } else {
        label
    }
}

/// The label of a credential.
pub fn credential_label(label: &str, language: Language, catalog: &Catalog) -> (r: String)
    ensures
        r@ == label_shown(label@, language, catalog),
{
    let label = trim(label);
    if label.as_str().is_empty() || same(label.as_str(), "Credential") {
        catalog.t_for(language, "onekey.credential")
    } else if same(label.as_str(), "Password") {
        catalog.t_for(language, "onekey.credential_password")
    } else if same(label.as_str(), "Token") {
        catalog.t_for(language, "onekey.credential_token")
    } else if same(label.as_str(), "Username") {
        catalog.t_for(language, "onekey.credential_username")
    } else {
        label
    }
}

/// What a credential is.
#[derive(Clone, Copy, PartialEq, Eq, Structural, Debug)]
pub enum CredentialKind {
    Password,
    Token,
    Username,
}

/// What a hint in lower case tells about a credential.
pub open spec fn kind_of(hint: Seq<char>) -> CredentialKind {
    if holds_text(hint, "password"@) || holds_text(hint, "passwd"@) || holds_text(hint, "secret"@)
        || holds_text(hint, "passphrase"@) || holds_text(hint, "pwd"@) {
        CredentialKind::Password
    } else if holds_text(hint, "token"@) || holds_text(hint, "otp"@) {
        CredentialKind::Token
    } else {
        CredentialKind::Username
    }
}

/// What a hint in lower case tells about a credential.
pub fn classify_hint(hint: &str) -> (r: CredentialKind)
    ensures
        r == kind_of(hint@),
{
    if contains_text(hint, "password") || contains_text(hint, "passwd") || contains_text(
        hint,
        "secret",
    ) || contains_text(hint, "passphrase") || contains_text(hint, "pwd") {
        CredentialKind::Password
    } else if contains_text(hint, "token") || contains_text(hint, "otp") {
        CredentialKind::Token
    } else {
        CredentialKind::Username
    }
}

/// What a credential is, by its label and the prompt that it fits.
pub fn credential_kind(entry: &OneKeyMatch) -> (r: CredentialKind)
    ensures
        r == kind_of(lowercase(trimmed(entry.label@) + " "@ + entry.matched_expect@)),
{
    let mut hint = trim(entry.label.as_str());
    hint.append(" ");
    hint.append(entry.matched_expect.as_str());
    classify_hint(hint.as_str().to_lowercase().as_str())
}

/// The message that names a kind, and the colour of its badge.
pub fn badge_of(kind: CredentialKind) -> (r: (&'static str, &'static str))
    ensures
        match kind {
            CredentialKind::Password => r.0@ == "onekey.credential_password"@ && r.1@ == "#f7768e"@,
            CredentialKind::Token => r.0@ == "onekey.credential_token"@ && r.1@ == "#e0af68"@,
            CredentialKind::Username => r.0@ == "onekey.credential_username"@ && r.1@ == "#9ece6a"@,
        },
{
    match kind {
        CredentialKind::Password => ("onekey.credential_password", "#f7768e"),
        CredentialKind::Token => ("onekey.credential_token", "#e0af68"),
        CredentialKind::Username => ("onekey.credential_username", "#9ece6a"),
    }
}

/// The letter on a badge: the first one of its title.
pub fn badge_letter(title: &str) -> (r: char)
    ensures
        r == (if title@.len() > 0 {
            title@[0]
        } else {
            '?'
        }),
{
    let v = chars_of(title);
    if v.len() > 0 {
        v[0]
    } else {
        '?'
    }
}

/// What a row tells when the pointer rests on it.
pub fn use_title(entry: &OneKeyMatch, label: &str, language: Language, catalog: &Catalog) -> (r:
    String)
    ensures
        r@ == replaced(
            catalog.text_with(language, "onekey.popup.use_credential"@, "name"@, entry.name@),
            placeholder("label"@),
            label@,
        ),
{
    let named = catalog.tf_for(
        language,
        "onekey.popup.use_credential",
        "name",
        entry.name.as_str(),
    );
    fill(named.as_str(), "label", label)
}

/// No more rows are shown than there are credentials or than fit, and no fewer than one of both.
pub proof fn law_rows_shown(count: int, max_rows: int)
    ensures
        rows_shown(count, max_rows) <= count,
        rows_shown(count, max_rows) <= max_rows,
        rows_shown(count, max_rows) == count || rows_shown(count, max_rows) == max_rows,
{
}

/// A hint tells of a password by any of five words, else of a token by one of two, and of a user
/// name where it holds none of them.
pub proof fn law_kind_of_a_hint(hint: Seq<char>)
    ensures
        kind_of(hint) == CredentialKind::Password <==> holds_text(hint, "password"@) || holds_text(
            hint,
            "passwd"@,
        ) || holds_text(hint, "secret"@) || holds_text(hint, "passphrase"@) || holds_text(
            hint,
            "pwd"@,
        ),
        kind_of(hint) == CredentialKind::Token ==> holds_text(hint, "token"@) || holds_text(
            hint,
            "otp"@,
        ),
        holds_text(hint, "token"@) || holds_text(hint, "otp"@) ==> kind_of(hint)
            != CredentialKind::Username,
        kind_of(hint) == CredentialKind::Username <==> !holds_text(hint, "password"@) && !holds_text(
            hint,
            "passwd"@,
        ) && !holds_text(hint, "secret"@) && !holds_text(hint, "passphrase"@) && !holds_text(
            hint,
            "pwd"@,
        ) && !holds_text(hint, "token"@) && !holds_text(hint, "otp"@),
{
}

/// A label of one's own is shown as it is, without the whitespace around it; the usual ones are
/// shown in the user's language, and none at all as that of any credential.
pub proof fn law_label_shown(label: Seq<char>, language: Language, catalog: &Catalog)
    ensures
        trimmed(label).len() > 0 && trimmed(label) != "Credential"@ && trimmed(label)
            != "Password"@ && trimmed(label) != "Token"@ && trimmed(label) != "Username"@
            ==> label_shown(label, language, catalog) == trimmed(label),
        trimmed(label).len() == 0 || trimmed(label) == "Credential"@ ==> label_shown(
            label,
            language,
            catalog,
        ) == catalog.text(language, "onekey.credential"@),
        trimmed(label) == "Password"@ ==> label_shown(label, language, catalog) == catalog.text(
            language,
            "onekey.credential_password"@,
        ),
        trimmed(label) == "Token"@ ==> label_shown(label, language, catalog) == catalog.text(
            language,
            "onekey.credential_token"@,
        ),
        trimmed(label) == "Username"@ ==> label_shown(label, language, catalog) == catalog.text(
            language,
            "onekey.credential_username"@,
        ),
{
    reveal_strlit("Credential");
    reveal_strlit("Password");
    reveal_strlit("Token");
    reveal_strlit("Username");
    assert("Credential"@.len() == 10 && "Password"@.len() == 8 && "Token"@.len() == 5);
    assert("Username"@.len() == 8 && "Username"@[0] == 'U' && "Password"@[0] == 'P');
}

} // verus!
