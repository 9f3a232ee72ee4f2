//! The settings: searching them, and what the dialog does with them.

use rusterm_panels::i18n::{Catalog, Language, Message};
use rusterm_panels::local_models::{
    delete_model, hyphenate, model_download_status, CustomModelForm, ModelDownload,
    ModelDownloadEvent, ModelDownloadState, QwenLocalSettings, FALLBACK_MODEL,
};
use rusterm_panels::settings_dialog::{
    choose_otp_provider, clear_shortcut, edit_otp, feishu_token_text, keybinding_error_text, language_code,
    otp_kind, outline_shadow, reveal_script, selected_language, set_shortcut,
    shortcut_of, shows_light, skin_kind_key,
    slider_moved, suggestion_count_key, theme_mode_key, CapturedKey, FeishuTokenStatus,
    FocusedTabAppearance, KeybindingCapture, KeybindingValidationError, OtpDefaults, OtpField,
    OtpWebhookConfig, SettingsDefaults, SettingsDraft, SkinColor, SkinKind, SkinPalette,
    SkinSettings, ThemeMode,
};
use rusterm_panels::settings_search::{
    find_items, fuzzy_score, keybinding_action_key, keybinding_actions, keybinding_target,
    score_folded, settings_search_items, subsequence_score, KeybindingAction, ModelConfig,
    SettingsSearchItem,
};

fn catalog() -> Catalog {
    let message = |key: &str, zh: &str, en: &str| Message {
        key: key.to_string(),
        zh: zh.to_string(),
        en: en.to_string(),
    };
    Catalog {
        messages: vec![
            message("settings.suggestions", "命令建议", "Command Suggestions"),
            message("settings.otp_webhook", "二次认证 Webhook", "OTP Webhook"),
            message(
                "settings.otp_webhook_help",
                "从飞书读取验证码",
                "Reads codes from Feishu",
            ),
            message("settings.keybindings", "快捷键", "Keyboard Shortcuts"),
            message("settings.keybinding_close_focused_pane", "关闭窗格", "Close focused pane"),
            message("settings.keybinding_append_pane", "追加窗格", "Append pane"),
            message("settings.keybinding_toggle_comparison", "切换对比", "Toggle comparison"),
            message("settings.keybinding_toggle_pane_zoom", "切换缩放", "Toggle pane zoom"),
            message("settings.keybinding_toggle_chat", "切换聊天", "Toggle chat"),
            message("settings.keybinding_error_unsafe", "不安全", "not safe"),
            message("settings.keybinding_error_conflict", "与{action}冲突", "taken by {action}"),
            message("settings.otp_feishu_token_connected", "有效至 {ts}", "until {ts}"),
            message("settings.otp_feishu_token_failed", "失败：{reason}", "failed: {reason}"),
            message("settings.otp_feishu_token_missing", "未登录", "not signed in"),
            message("ai_runtime.local.download_model", "下载模型", "Download model"),
            message("ai_runtime.local.custom_err_empty", "空", "empty"),
            message("ai_runtime.local.custom_err_template", "缺少 {prompt}", "no {prompt}"),
            message("ai_runtime.local.custom_err_dup", "重复", "duplicate"),
            message("ai_runtime.local.cache_unavailable", "无缓存", "no cache"),
            message("ai_runtime.local.download_starting", "开始", "starting"),
            message("ai_runtime.local.downloading", "下载 {file}", "downloading {file}"),
        ],
    }
}

fn model(id: &str, name: &str, repo_id: &str) -> ModelConfig {
    ModelConfig {
        id: id.to_string(),
        name: name.to_string(),
        repo_id: repo_id.to_string(),
        architecture: "qwen2".to_string(),
        prompt_template: "{prompt}".to_string(),
        eos_token: "</s>".to_string(),
    }
}

fn builtin() -> Vec<ModelConfig> {
    vec![model("qwen25-coder-0.5b", "Qwen2.5-Coder-0.5B", "Qwen/Qwen2.5-Coder-0.5B-Instruct")]
}

fn settings_search_matches(query: &str, custom: &[ModelConfig]) -> Vec<SettingsSearchItem> {
    let custom = custom.iter().map(|m| model(&m.id, &m.name, &m.repo_id)).collect();
    rusterm_panels::settings_search::settings_search_matches(
        query,
        &builtin(),
        &custom,
        Language::Zh,
        &catalog(),
    )
}

#[test]
fn fuzzy_score_prefers_exact_and_substring_matches() {
    assert!(
        fuzzy_score("skin", "skin").unwrap() > fuzzy_score("skin", "application skin").unwrap()
    );
    assert!(fuzzy_score("MIRROR", "download mirror url").is_some());
}

#[test]
fn fuzzy_score_supports_subsequence_and_chinese_queries() {
    assert!(fuzzy_score("otln clr", "outline color border colour").is_some());
    assert!(fuzzy_score("下载镜像", "HuggingFace 模型下载镜像地址").is_some());
}

#[test]
fn fuzzy_score_rejects_unrelated_queries() {
    assert_eq!(fuzzy_score("zzqx", "outline color"), None);
    assert_eq!(fuzzy_score("", "outline color"), None);
}

#[test]
fn settings_search_indexes_both_languages_and_every_keybinding_action() {
    let mirror = settings_search_matches("download mirror", &[]);
    assert!(
        mirror
            .iter()
            .any(|item| item.target == "settings-local-ai-mirror")
    );

    let chinese = settings_search_matches("命令建议", &[]);
    assert!(
        chinese
            .iter()
            .any(|item| item.target == "settings-suggestions")
    );

    let builtin_model = settings_search_matches("Qwen2.5-Coder-0.5B", &[]);
    assert!(
        builtin_model
            .iter()
            .any(|item| item.target == "settings-local-ai-model")
    );

    for action in keybinding_actions() {
        let key = keybinding_action_key(action);
        let query = catalog().t_for(Language::En, key);
        let matches = settings_search_matches(&query, &[]);
        assert!(
            matches
                .iter()
                .any(|item| item.target == keybinding_target(action))
        );
    }
}

#[test]
fn settings_search_includes_explicit_model_download_action() {
    let english = settings_search_matches("download model", &[]);
    assert!(
        english
            .iter()
            .any(|item| item.target == "settings-local-ai-download")
    );

    let chinese = settings_search_matches("下载模型", &[]);
    assert!(
        chinese
            .iter()
            .any(|item| item.target == "settings-local-ai-download")
    );
}

#[test]
fn settings_search_includes_custom_model_names_and_repositories() {
    let model = ModelConfig {
        id: "ops-coder".to_string(),
        name: "Ops Coder".to_string(),
        repo_id: "Example/Ops-Coder".to_string(),
        architecture: "qwen2".to_string(),
        prompt_template: "{prompt}".to_string(),
        eos_token: "</s>".to_string(),
    };

    let matches = settings_search_matches("Example/Ops-Coder", &[model]);
    assert!(matches.iter().any(|item| item.title == "Ops Coder"));
}

#[test]
fn settings_search_includes_otp_webhook_in_both_languages() {
    let english = settings_search_matches("otp feishu", &[]);
    assert!(
        english
            .iter()
            .any(|item| item.target == "settings-otp-webhook")
    );
    let chinese = settings_search_matches("二次认证 飞书", &[]);
    assert!(
        chinese
            .iter()
            .any(|item| item.target == "settings-otp-webhook")
    );
}

#[test]
fn scores_are_exact() {
    assert_eq!(fuzzy_score(" Skin ", "skin"), Some(1000));
    assert_eq!(fuzzy_score("skin", "application skin"), Some(800 - 12));
    // Offsets count bytes: the two characters before the match take six.
    assert_eq!(fuzzy_score("镜像", "下载镜像"), Some(800 - 6));
    // Each word that stands in the text gives 500 less its offset.
    assert_eq!(fuzzy_score("color outline", "outline color"), Some(492 + 500));
    // A spread word gives 300 less what it spans.
    assert_eq!(subsequence_score("ac", "abc"), Some(298));
    assert_eq!(subsequence_score("", "abc"), Some(0));
    assert_eq!(subsequence_score("ca", "abc"), None);
    assert_eq!(score_folded("abc", "xabcx"), Some(799));
    assert_eq!(fuzzy_score("SKİN", "ski\u{307}n"), Some(1000));
}

#[test]
fn finds_are_ordered_by_score_and_title() {
    let item = |title: &str, text: &str| SettingsSearchItem {
        target: "t",
        title: title.to_string(),
        section: "s".to_string(),
        search_text: text.to_string(),
    };
    let found = find_items(
        "log",
        vec![item("z", "a log"), item("b", "log"), item("a", "log"), item("n", "none")],
    );
    let titles: Vec<&str> = found.iter().map(|i| i.title.as_str()).collect();
    assert_eq!(titles, vec!["a", "b", "z"]);
    let all = settings_search_items(&builtin(), &Vec::new(), Language::En, &catalog());
    assert_eq!(all.len(), 46 + 5 + 1);
}

#[test]
fn skins_and_themes_have_labels() {
    assert_eq!(skin_kind_key(SkinKind::OneDark), "settings.skin_one_dark");
    assert_eq!(theme_mode_key(ThemeMode::Light), "settings.theme_light");
    assert!(shows_light(ThemeMode::System, false));
    assert!(!shows_light(ThemeMode::System, true));
    assert!(!shows_light(ThemeMode::Dark, false));
    assert_eq!(suggestion_count_key(5), "settings.suggestion_count_balanced");
    assert_eq!(suggestion_count_key(10), "settings.suggestion_count_extensive");
    assert_eq!(suggestion_count_key(4), "settings.suggestion_count_compact");
    for language in [Language::Zh, Language::En] {
        assert_eq!(selected_language(language_code(language)), language);
    }
    assert_eq!(selected_language("fr"), Language::Zh);
    assert!(reveal_script("settings-skin").contains("getElementById('settings-skin')"));
}

fn palette(color: &str) -> SkinPalette {
    let text = || color.to_string();
    SkinPalette {
        background: text(),
        surface: text(),
        surface_hover: text(),
        border: text(),
        border_strong: text(),
        text: text(),
        text_muted: text(),
        accent: text(),
        accent_secondary: text(),
        success: text(),
        warning: text(),
        danger: text(),
    }
}

fn skin() -> SkinSettings {
    SkinSettings {
        kind: SkinKind::TokyoNight,
        mode: ThemeMode::Dark,
        custom: palette("#000"),
        custom_light: palette("#fff"),
    }
}

#[test]
fn custom_colors_belong_to_one_theme() {
    let mut skin = skin();
    skin.set_custom_color(true, SkinColor::Accent, "#123".to_string());
    assert_eq!(skin.custom_light.accent, "#123");
    assert_eq!((skin.custom_light.text.as_str(), skin.custom.accent.as_str()), ("#fff", "#000"));
    skin.open_find("settings-skin");
    assert_eq!(skin.kind, SkinKind::TokyoNight);
    skin.open_find("settings-color-accent");
    assert_eq!(skin.kind, SkinKind::Custom);
}

#[test]
fn sliders_take_numbers_only() {
    let mut width = 2u8;
    slider_moved(&mut width, "7");
    assert_eq!(width, 7);
    slider_moved(&mut width, "300");
    slider_moved(&mut width, "x");
    assert_eq!(width, 7);
    let appearance = FocusedTabAppearance {
        border_color: "#7aa2f7".to_string(),
        border_width: 3,
        border_radius: 0,
    };
    assert_eq!(outline_shadow(&appearance), "inset 0 0 0 3px #7aa2f7");
}

#[test]
fn shortcuts_are_captured_once_they_are_safe() {
    let mut capture = KeybindingCapture { capturing: None, error: None };
    capture.begin(KeybindingAction::ToggleChat);
    assert!(!capture.key(CapturedKey::Incomplete));
    assert_eq!(capture.capturing, Some(KeybindingAction::ToggleChat));
    assert!(!capture.key(CapturedKey::Chord { safe: false, conflict: None }));
    assert_eq!(capture.error, Some(KeybindingValidationError::UnsafeShortcut));
    let taken = CapturedKey::Chord { safe: true, conflict: Some(KeybindingAction::AppendPane) };
    assert!(!capture.key(taken));
    let error = capture.error.unwrap();
    assert_eq!(
        keybinding_error_text(error, Language::En, &catalog()),
        "taken by Append pane"
    );
    assert_eq!(
        keybinding_error_text(KeybindingValidationError::UnsafeShortcut, Language::En, &catalog()),
        "not safe"
    );
    assert!(capture.key(CapturedKey::Chord { safe: true, conflict: None }));
    assert_eq!((capture.capturing, capture.error), (None, None));
    capture.begin(KeybindingAction::AppendPane);
    capture.disabled(KeybindingAction::ToggleChat);
    assert_eq!(capture.capturing, Some(KeybindingAction::AppendPane));
    capture.disabled(KeybindingAction::AppendPane);
    assert_eq!(capture.capturing, None);
    capture.begin(KeybindingAction::AppendPane);
    assert!(!capture.key(CapturedKey::Escape));
    assert_eq!(capture.capturing, None);
}

fn otp_defaults() -> OtpDefaults {
    OtpDefaults {
        code_pattern: r"\d{6}".to_string(),
        max_age_secs: 120,
        feishu_base_url: "https://open.feishu.cn".to_string(),
        feishu_request_text: "otp".to_string(),
    }
}

#[test]
fn otp_providers_are_chosen_and_edited() {
    let mut setting = choose_otp_provider("feishubot", &otp_defaults());
    assert_eq!(otp_kind(&setting), "feishubot");
    edit_otp(&mut setting, OtpField::BotSenderOpenId, " ".to_string());
    edit_otp(&mut setting, OtpField::BotMaxAgeSecs, " 45 ".to_string());
    edit_otp(&mut setting, OtpField::HttpUrl, "ignored".to_string());
    match &setting {
        Some(OtpWebhookConfig::Feishubot { sender_open_id, max_age_secs, base_url, .. }) => {
            assert_eq!((sender_open_id.as_deref(), *max_age_secs), (None, 45));
            assert_eq!(base_url, "https://open.feishu.cn");
        }
        _ => panic!("the provider stays"),
    }
    edit_otp(&mut setting, OtpField::BotMaxAgeSecs, "soon".to_string());
    assert!(matches!(
        &setting,
        Some(OtpWebhookConfig::Feishubot { max_age_secs: 45, .. })
    ));
    let http = choose_otp_provider("http", &otp_defaults());
    assert!(matches!(
        &http,
        Some(OtpWebhookConfig::Http { method, timeout_secs: 10, .. }) if method == "get"
    ));
    let user = choose_otp_provider("feishuuser", &otp_defaults());
    assert_eq!(otp_kind(&user), "feishuuser");
    assert!(choose_otp_provider("manual", &otp_defaults()).is_none());
    assert_eq!(otp_kind(&None), "manual");
}

#[test]
fn token_status_shows_the_time_of_expiry() {
    let connected = |expires_at: i64| {
        let status = Some(FeishuTokenStatus::Connected { expires_at });
        feishu_token_text(&status, Language::En, &catalog())
    };
    assert_eq!(connected(0), "until 00:00");
    assert_eq!(connected(86399), "until 23:59");
    assert_eq!(connected(1700000000), "until 22:13");
    assert_eq!(connected(-60), "until 23:59");
    assert_eq!(connected(8210266876799), "until 23:59");
    assert_eq!(connected(8210266876800), "until ");
    assert_eq!(connected(-8334601228800), "until 00:00");
    assert_eq!(connected(-8334601228801), "until ");
    assert_eq!(connected(i64::MAX), "until ");
    let failed = Some(FeishuTokenStatus::Failed { reason: "denied".to_string() });
    assert_eq!(feishu_token_text(&failed, Language::En, &catalog()), "failed: denied");
    assert_eq!(feishu_token_text(&None, Language::Zh, &catalog()), "未登录");
}

fn local_ai() -> QwenLocalSettings {
    QwenLocalSettings {
        enabled: false,
        mirror_url: String::new(),
        active_model_id: "qwen25-coder-0.5b".to_string(),
        custom_models: Vec::new(),
    }
}

fn form(name: &str, template: &str) -> CustomModelForm {
    CustomModelForm {
        shown: true,
        name: name.to_string(),
        repo: "Example/Ops".to_string(),
        template: template.to_string(),
        eos: "</s>".to_string(),
        error: String::new(),
    }
}

#[test]
fn custom_models_get_an_id_from_their_name() {
    assert_eq!(hyphenate("ops coder.v2é"), "ops-coder-v2é");
    let mut settings = local_ai();
    let mut first = form(" Ops CODER 2 ", "{prompt}");
    assert!(first.add_model(&mut settings, &builtin(), Language::En, &catalog()));
    assert_eq!(settings.custom_models[0].id, "ops-coder-2");
    assert_eq!(settings.custom_models[0].name, "Ops CODER 2");
    assert_eq!(settings.active_model_id, "ops-coder-2");
    assert!(!first.shown && first.name.is_empty());
    let mut twice = form("ops-coder-2", "{prompt}");
    assert!(!twice.add_model(&mut settings, &builtin(), Language::En, &catalog()));
    assert_eq!(twice.error, "duplicate");
    delete_model(&mut settings, "ops-coder-2");
    assert!(settings.custom_models.is_empty());
    assert_eq!(settings.active_model_id, FALLBACK_MODEL);
}

#[test]
fn custom_models_are_checked() {
    let mut settings = local_ai();
    let mut empty = form("  ", "{prompt}");
    assert!(!empty.add_model(&mut settings, &builtin(), Language::En, &catalog()));
    assert_eq!(empty.error, "empty");
    let mut plain = form("Ops", "hello");
    assert!(!plain.add_model(&mut settings, &builtin(), Language::En, &catalog()));
    assert_eq!(plain.error, "no {prompt}");
    plain.cancel();
    assert!(!plain.shown && plain.error.is_empty());
}

#[test]
fn downloads_run_one_at_a_time() {
    let mut download = ModelDownload { state: model_download_status(false), task: None };
    let id = || "m".to_string();
    assert!(!download.start(false, id(), id(), Language::En, &catalog()));
    assert!(matches!(&download.state, ModelDownloadState::Failed(why) if why == "no cache"));
    assert!(download.start(true, id(), "Model".to_string(), Language::En, &catalog()));
    assert!(download.button_disabled());
    assert_eq!(download.status_text(Language::En, &catalog()), "starting");
    assert!(!download.start(true, id(), id(), Language::En, &catalog()));
    let file = ModelDownloadEvent::Downloading { file: "a.bin".to_string() };
    assert!(!download.report(file, "m", "m"));
    assert_eq!(download.status_text(Language::En, &catalog()), "downloading a.bin");
    assert!(download.report(ModelDownloadEvent::Finished(Ok(())), "m", "m"));
    assert!(matches!(download.state, ModelDownloadState::Ready));
    assert_eq!(download.button_key(), "ai_runtime.local.ready");
    download.task = Some((id(), id()));
    assert!(download.report(ModelDownloadEvent::Lost, "m", "m"));
    assert!(matches!(
        &download.state,
        ModelDownloadState::Failed(why) if why == "model download thread stopped unexpectedly"
    ));
    assert_eq!(download.status_color(), "var(--settings-danger)");
    download.state = ModelDownloadState::Starting;
    assert_eq!(download.status_color(), "var(--settings-text-muted)");
    assert!(matches!(model_download_status(true), ModelDownloadState::Ready));
}

#[test]
fn resetting_keeps_whether_codes_are_fetched() {
    let appearance = |width: u8| FocusedTabAppearance {
        border_color: "#7aa2f7".to_string(),
        border_width: width,
        border_radius: 4,
    };
    let mut draft = SettingsDraft {
        appearance: appearance(9),
        suggestion_enabled: false,
        suggestion_count: 10,
        comparison_warning: false,
        usage_habits: true,
        otp_webhook: choose_otp_provider("http", &otp_defaults()),
        otp_webhook_enabled: true,
        local_ai: local_ai(),
        custom_form: form("x", "y"),
        skin: skin(),
        capture: KeybindingCapture {
            capturing: Some(KeybindingAction::ToggleChat),
            error: None,
        },
    };
    let defaults =
        SettingsDefaults { appearance: appearance(2), local_ai: local_ai(), skin: skin() };
    draft.reset(defaults);
    assert_eq!(draft.appearance.border_width, 2);
    assert_eq!((draft.suggestion_enabled, draft.suggestion_count), (true, 3));
    assert!(draft.comparison_warning && !draft.usage_habits && draft.otp_webhook.is_none());
    assert!(draft.otp_webhook_enabled);
    assert!(!draft.custom_form.shown && draft.capture.capturing.is_none());
}

#[test]
fn blank_queries_find_no_settings() {
    assert_eq!(fuzzy_score(" \t", "outline color"), None);
    assert!(settings_search_matches("  ", &[]).is_empty());
}

#[test]
fn each_action_has_one_shortcut() {
    let mut list = vec![
        (KeybindingAction::ToggleChat, "Ctrl+J".to_string()),
        (KeybindingAction::AppendPane, "Ctrl+D".to_string()),
        (KeybindingAction::ToggleChat, "Ctrl+K".to_string()),
    ];
    assert_eq!(shortcut_of(&list, KeybindingAction::ToggleChat).as_deref(), Some("Ctrl+J"));
    assert_eq!(shortcut_of(&list, KeybindingAction::TogglePaneZoom), None);
    set_shortcut(&mut list, KeybindingAction::ToggleChat, "Alt+C".to_string());
    assert_eq!(list.len(), 2);
    assert_eq!(shortcut_of(&list, KeybindingAction::ToggleChat).as_deref(), Some("Alt+C"));
    assert_eq!(shortcut_of(&list, KeybindingAction::AppendPane).as_deref(), Some("Ctrl+D"));
    clear_shortcut(&mut list, KeybindingAction::ToggleChat);
    assert_eq!(shortcut_of(&list, KeybindingAction::ToggleChat), None);
    assert_eq!(list, vec![(KeybindingAction::AppendPane, "Ctrl+D".to_string())]);
}
