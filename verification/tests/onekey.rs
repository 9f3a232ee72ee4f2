//! OneKey entries: their prompts, their checks, and the popup that offers them.

use rusterm_panels::i18n::{Catalog, Language, Message};
use rusterm_panels::onekey_manager::{
    check_step, custom_keys, expect_mode_key, expect_preset, manager_key, ExpectPreset,
    ManagerAction, ManagerKey, OneKey, OneKeyEditor, OneKeyStep, PromptPresets,
};
use rusterm_panels::onekey_popup::{
    badge_letter, badge_of, classify_hint, credential_kind, credential_label, popup_rows, use_title,
    CredentialKind, OneKeyMatch,
};

const DEFAULT_ONEKEY_PASSWORD_EXPECT: &str = r"(password|密码)[^:]*:\s*$";
const DEFAULT_ONEKEY_USERNAME_EXPECT: &str = r"(login|username|用户名)[^:]*:\s*$";

fn presets() -> PromptPresets {
    PromptPresets {
        password_expect: DEFAULT_ONEKEY_PASSWORD_EXPECT.to_string(),
        username_expect: DEFAULT_ONEKEY_USERNAME_EXPECT.to_string(),
    }
}

fn validate_onekeys(onekeys: &[OneKey]) -> Option<String> {
    let copies = onekeys
        .iter()
        .map(|onekey| OneKey {
            id: onekey.id.clone(),
            name: onekey.name.clone(),
            steps: onekey
                .steps
                .iter()
                .map(|step| OneKeyStep {
                    label: step.label.clone(),
                    expect: step.expect.clone(),
                    send: step.send.clone(),
                })
                .collect(),
        })
        .collect();
    rusterm_panels::onekey_manager::validate_onekeys(&copies)
}

fn entry(expect: &str, send: &str) -> OneKey {
    OneKey {
        id: "id".to_string(),
        name: "account".to_string(),
        steps: vec![OneKeyStep {
            label: "Password".to_string(),
            expect: expect.to_string(),
            send: send.to_string(),
        }],
    }
}

#[test]
fn valid_entry_can_be_saved() {
    assert_eq!(validate_onekeys(&[entry("password:", "sëcret🔒")]), None);
}

#[test]
fn built_in_prompt_presets_are_distinct_from_custom_regexes() {
    assert_eq!(
        expect_preset(DEFAULT_ONEKEY_PASSWORD_EXPECT, &presets()),
        ExpectPreset::Password
    );
    assert_eq!(
        expect_preset(DEFAULT_ONEKEY_USERNAME_EXPECT, &presets()),
        ExpectPreset::Username
    );
    assert_eq!(expect_preset(r"PIN:\s*$", &presets()), ExpectPreset::Custom);
}

#[test]
fn empty_send_and_invalid_regex_are_rejected() {
    assert!(
        validate_onekeys(&[entry("password:", "")])
            .unwrap()
            .contains("Send value")
    );
    assert!(
        validate_onekeys(&[entry("(", "secret")])
            .unwrap()
            .contains("invalid Expect regex")
    );
}

#[test]
fn every_problem_names_its_place() {
    let mut nameless = entry("x", "y");
    nameless.name = " ".to_string();
    assert_eq!(
        validate_onekeys(&[entry("x", "y"), nameless]),
        Some("OneKey #2 needs a name.".to_string())
    );
    let mut empty = entry("x", "y");
    empty.steps.clear();
    assert_eq!(
        validate_onekeys(&[empty]),
        Some("OneKey ‘account’ needs at least one Expect / Send step.".to_string())
    );
    assert_eq!(
        validate_onekeys(&[entry("  ", "y")]),
        Some("OneKey ‘account’ step ‘Password’ needs an Expect regex.".to_string())
    );
    let mut unlabeled = entry("x", "");
    unlabeled.steps[0].label.clear();
    assert_eq!(
        validate_onekeys(&[unlabeled]),
        Some("OneKey ‘account’ step #1 needs a Send value.".to_string())
    );
}

#[test]
fn an_invalid_regex_is_reported_with_the_parsers_words() {
    let shown = validate_onekeys(&[entry("a(b", "y")]).unwrap();
    assert!(shown.starts_with("OneKey ‘account’ step ‘Password’ has an invalid Expect regex: "));
    assert!(shown.contains("(?i)a(b"), "{shown}");
    assert!(shown.contains("unclosed group"), "{shown}");
    assert_eq!(
        check_step("t", &entry("a(b", "y").steps[0], &Some("why".to_string())),
        Some("t has an invalid Expect regex: why".to_string())
    );
    assert_eq!(check_step("t", &entry("ab", "y").steps[0], &None), None);
}

#[test]
fn new_entries_get_an_id_of_their_own() {
    let mut editor = OneKeyEditor::opened(Vec::new(), &presets());
    assert_eq!(editor.selected, None);
    editor.add_new_onekey(&presets());
    editor.add_new_onekey(&presets());
    assert_eq!(editor.selected, Some(1));
    let (first, second) = (&editor.entries[0].id, &editor.entries[1].id);
    assert_ne!(first, second);
    assert_eq!(first.len(), 36);
    assert_eq!(first.as_bytes()[14], b'4');
    assert!(first.chars().enumerate().all(|(i, c)| match i {
        8 | 13 | 18 | 23 => c == '-',
        _ => c.is_ascii_digit() || ('a'..='f').contains(&c),
    }));
    assert_eq!(editor.entries[0].name, "new");
    assert_eq!(editor.entries[0].steps[0].expect, DEFAULT_ONEKEY_USERNAME_EXPECT);
    assert_eq!(editor.entries[0].steps[1].expect, DEFAULT_ONEKEY_PASSWORD_EXPECT);
}

#[test]
fn prompts_are_shown_as_they_were_chosen() {
    let mut editor = OneKeyEditor::opened(vec![entry("PIN:", "1")], &presets());
    assert_eq!(editor.custom_steps, vec!["id:0"]);
    assert_eq!(custom_keys(&editor.entries, &presets()), vec!["id:0"]);
    assert_eq!(expect_mode_key("id", 0), "id:0");
    assert_eq!(editor.expect_mode(&presets(), 0, 0), "custom");
    editor.choose_mode(&presets(), 0, 0, "password");
    assert_eq!(editor.expect_mode(&presets(), 0, 0), "password");
    assert_eq!(editor.entries[0].steps[0].expect, DEFAULT_ONEKEY_PASSWORD_EXPECT);
    editor.choose_mode(&presets(), 0, 0, "custom");
    assert_eq!(editor.expect_mode(&presets(), 0, 0), "custom");
    editor.choose_mode(&presets(), 0, 0, "username");
    assert_eq!(editor.expect_mode(&presets(), 0, 0), "username");
}

#[test]
fn steps_and_entries_come_and_go() {
    let mut editor = OneKeyEditor::opened(Vec::new(), &presets());
    editor.add_onekey("k".to_string(), &presets());
    editor.add_step(0, &presets());
    assert_eq!(editor.entries[0].steps.len(), 3);
    editor.choose_mode(&presets(), 0, 2, "custom");
    editor.remove_step(0, 0);
    assert_eq!(editor.entries[0].steps.len(), 2);
    assert!(editor.custom_steps.is_empty());
    editor.delete_onekey(0);
    assert!(editor.entries.is_empty() && editor.selected.is_none());
}

#[test]
fn manager_saves_only_what_is_in_order() {
    let good = vec![entry("x", "y")];
    let bad = vec![entry("(", "y")];
    assert_eq!(manager_key(ManagerKey::Escape, false, &bad), ManagerAction::Close);
    assert_eq!(manager_key(ManagerKey::Enter, true, &good), ManagerAction::Save);
    assert_eq!(manager_key(ManagerKey::Enter, true, &bad), ManagerAction::Nothing);
    assert_eq!(manager_key(ManagerKey::Enter, false, &good), ManagerAction::Nothing);
    assert_eq!(manager_key(ManagerKey::Other, true, &good), ManagerAction::Nothing);
}

fn offered(label: &str, expect: &str) -> OneKeyMatch {
    OneKeyMatch {
        name: "prod".to_string(),
        label: label.to_string(),
        matched_expect: expect.to_string(),
    }
}

#[test]
fn popup_shows_a_few_rows_and_highlights_one() {
    assert_eq!(popup_rows(3, 6, 1), (3, 1));
    assert_eq!(popup_rows(9, 6, 8), (6, 5));
    assert_eq!(popup_rows(0, 6, 2).0, 0);
}

#[test]
fn popup_tells_credentials_apart() {
    assert_eq!(classify_hint("api token"), CredentialKind::Token);
    assert_eq!(classify_hint("login"), CredentialKind::Username);
    assert_eq!(classify_hint("token or password"), CredentialKind::Password);
    assert_eq!(credential_kind(&offered(" OTP ", "x")), CredentialKind::Token);
    assert_eq!(credential_kind(&offered("Login", "PASSWD:")), CredentialKind::Password);
    assert_eq!(
        badge_of(CredentialKind::Username),
        ("onekey.credential_username", "#9ece6a")
    );
    assert_eq!(badge_letter("密码"), '密');
    assert_eq!(badge_letter(""), '?');
}

#[test]
fn popup_labels_are_translated() {
    let message = |key: &str, zh: &str, en: &str| Message {
        key: key.to_string(),
        zh: zh.to_string(),
        en: en.to_string(),
    };
    let catalog = Catalog {
        messages: vec![
            message("onekey.credential", "凭据", "Credential"),
            message("onekey.credential_password", "密码", "Password"),
            message("onekey.popup.use_credential", "使用 {name} 的{label}", "Use {label} of {name}"),
        ],
    };
    assert_eq!(credential_label("  ", Language::Zh, &catalog), "凭据");
    assert_eq!(credential_label("Password", Language::Zh, &catalog), "密码");
    assert_eq!(credential_label("Username", Language::Zh, &catalog), "onekey.credential_username");
    assert_eq!(credential_label(" PIN ", Language::Zh, &catalog), "PIN");
    assert_eq!(
        use_title(&offered("x", "y"), "PIN", Language::En, &catalog),
        "Use PIN of prod"
    );
}
