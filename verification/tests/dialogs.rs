//! The smaller dialogs and badges.

use rusterm_panels::close_confirmation_dialog::{CloseConfirmation, CloseDecision};
use rusterm_panels::command_status_badge::{CommandStatus, CommandStatusPresentation};
use rusterm_panels::connection_dialog::{
    default_form, dialog_title, form_from_connection, host_hint, identity_hint,
    show_proxy_settings, submit_label, terminal_types, ConnectionEditor, ResolvedHost, Submission,
};
use rusterm_panels::feishu_qr_popup::{status_banner, FeishuQrPopupStatus};
use rusterm_panels::i18n::{fill, Catalog, Language, Message};
use rusterm_panels::icon::{icon_path, IconName};
use rusterm_panels::master_password_dialog::{
    subtitle_key, title_key, MasterPasswordForm, UnlockState,
};
use rusterm_panels::model::{
    ConnectionConfig, ConnectionKind, ProxyConfig, ProxyKind, SshAuth, SshConfig,
};
use rusterm_panels::restore_session_dialog::{detected_text, RestoreSessionSummary};
use rusterm_panels::shadow_sandbox_dialog::{
    exit_label, truncation_note, working_directory_label,
};

fn catalog() -> Catalog {
    let message = |key: &str, zh: &str, en: &str| Message {
        key: key.to_string(),
        zh: zh.to_string(),
        en: en.to_string(),
    };
    Catalog {
        messages: vec![
            message("cmd_status.connected", "✓ 已连接", "✓ Connected"),
            message("cmd_status.connected_tip", "会话已连接", "The session is connected"),
            message("cmd_status.success", "✓ 成功", "✓ Success"),
            message("cmd_status.success_tip", "命令执行成功", "The command succeeded"),
            message(
                "cmd_status.failed",
                "✗ 失败 (exit {exit_code})",
                "✗ Failed (exit {exit_code})",
            ),
            message("cmd_status.failed_tip", "退出码 {exit_code}", "Exit code {exit_code}"),
            message("cmd_status.disconnected", "⚠ 断开", "⚠ Disconnected"),
            message(
                "cmd_status.disconnected_tip",
                "连接已断开：{reason}，按 Enter 重连",
                "Disconnected: {reason}. Press Enter to reconnect",
            ),
            message("feishu.qr_expired", "已过期", "expired"),
            message("feishu.qr_failed", "失败：{reason}", "failed: {reason}"),
            message("shadow.unknown", "未知", "unknown"),
            message("shadow.exit_code_unavailable", "无", "none"),
            message("shadow.output_truncated", "超过 {limit}", "over {limit}"),
            message(
                "restore.detected",
                "{saved_at} 的 {session_count} 个会话",
                "{session_count} sessions of {saved_at}",
            ),
        ],
    }
}

fn command_status_presentation(
    status: &CommandStatus,
    connected: bool,
) -> Option<CommandStatusPresentation> {
    rusterm_panels::command_status_badge::command_status_presentation(
        status,
        connected,
        Language::Zh,
        &catalog(),
    )
}

#[test]
fn idle_has_no_badge_when_not_connected() {
    assert!(command_status_presentation(&CommandStatus::Idle, false).is_none());
}

#[test]
fn idle_shows_green_connected_badge_when_connected() {
    let presentation = command_status_presentation(&CommandStatus::Idle, true).unwrap();
    assert_eq!(presentation.label, "✓ 已连接");
    assert!(presentation.background.contains("76, 175, 80"));
}

#[test]
fn success_is_green() {
    let presentation = command_status_presentation(&CommandStatus::Success, false).unwrap();
    assert_eq!(presentation.label, "✓ 成功");
    assert!(presentation.background.contains("76, 175, 80"));
}

#[test]
fn real_command_status_wins_over_connected_fallback() {
    // A resolved command result must not be masked by the connection
    // fallback — Success/Failed keep their own labels while connected.
    let success = command_status_presentation(&CommandStatus::Success, true).unwrap();
    assert_eq!(success.label, "✓ 成功");
    let failed = command_status_presentation(&CommandStatus::Failed(1), true).unwrap();
    assert!(failed.label.contains("失败"));
}

#[test]
fn failure_is_red_and_keeps_exit_code() {
    let presentation = command_status_presentation(&CommandStatus::Failed(127), false).unwrap();
    assert_eq!(presentation.label, "✗ 失败 (exit 127)");
    assert!(presentation.background.contains("244, 67, 54"));
}

#[test]
fn disconnect_is_red_and_keeps_reason_in_tooltip() {
    let presentation =
        command_status_presentation(&CommandStatus::Disconnected("timeout".to_string()), false)
            .unwrap();
    assert_eq!(presentation.label, "⚠ 断开");
    assert!(presentation.background.contains("244, 67, 54"));
    assert!(presentation.title.contains("timeout"));
    assert!(presentation.title.contains("Enter"));
}

#[test]
fn disconnect_status_wins_even_when_connection_flag_is_stale() {
    // `Disconnected` status + `connected: true` (stale flag during a
    // reconnect race) must keep showing the red disconnect badge.
    let presentation =
        command_status_presentation(&CommandStatus::Disconnected("timeout".to_string()), true)
            .unwrap();
    assert_eq!(presentation.label, "⚠ 断开");
}

#[test]
fn negative_exit_codes_keep_their_sign() {
    let presentation = command_status_presentation(&CommandStatus::Failed(-9), true).unwrap();
    assert_eq!(presentation.label, "✗ 失败 (exit -9)");
    let lowest = command_status_presentation(&CommandStatus::Failed(i32::MIN), true).unwrap();
    assert_eq!(lowest.title, "退出码 -2147483648");
}

fn connection(kind: ConnectionKind) -> ConnectionConfig {
    ConnectionConfig {
        id: "proxied".to_string(),
        name: "Proxied SSH".to_string(),
        kind,
        group: None,
        onekey: false,
        login_script: None,
    }
}

fn ssh(auth: SshAuth, proxy: Option<ProxyConfig>) -> ConnectionKind {
    ConnectionKind::Ssh(SshConfig {
        host: "ssh.example".to_string(),
        port: 22,
        username: "alice".to_string(),
        auth,
        terminal_type: "xterm-256color".to_string(),
        proxy,
    })
}

#[test]
fn edit_form_restores_proxy_configuration() {
    let connection = connection(ssh(
        SshAuth::Agent,
        Some(ProxyConfig {
            kind: ProxyKind::Https,
            host: "proxy.example".to_string(),
            port: 443,
            username: Some("proxy-user".to_string()),
            password: Some("proxy-password".to_string()),
        }),
    ));

    let form = form_from_connection(&connection);
    assert_eq!(form.proxy_type, "https");
    assert_eq!(form.proxy_host, "proxy.example");
    assert_eq!(form.proxy_port, "443");
    assert_eq!(form.proxy_username, "proxy-user");
    assert_eq!(form.proxy_password, "proxy-password");
}

#[test]
fn edit_form_restores_authentication() {
    let key = SshAuth::Key { private_key_path: "~/.ssh/id".to_string(), passphrase: None };
    let form = form_from_connection(&connection(ssh(key, None)));
    assert_eq!(
        (form.auth_type.as_str(), form.key_path.as_str(), form.passphrase.as_str()),
        ("key", "~/.ssh/id", "")
    );
    assert_eq!((form.proxy_type.as_str(), form.port.as_str()), ("none", "22"));
    let password = SshAuth::Password { password: "pw".to_string() };
    let mut saved = connection(ssh(password, None));
    saved.login_script = Some("send ls".to_string());
    saved.group = Some("g".to_string());
    let form = form_from_connection(&saved);
    assert_eq!((form.password.as_str(), form.login_script.as_str()), ("", "send ls"));
    assert_eq!(form.group_id.as_deref(), Some("g"));
    saved.kind = ConnectionKind::Other;
    let other = form_from_connection(&saved);
    assert_eq!((other.name.as_str(), other.login_script.as_str()), ("Proxied SSH", ""));
    assert_eq!(other.auth_type, "password");
    assert!(!show_proxy_settings(Some(&saved)));
    assert!(show_proxy_settings(None));
}

#[test]
fn proxy_port_follows_the_proxy_until_it_is_typed() {
    let mut form = default_form();
    form.choose_proxy("socks5".to_string());
    assert_eq!(form.proxy_port, "1080");
    assert!(form.proxy_enabled());
    form.choose_proxy("https".to_string());
    assert_eq!((form.proxy_port.as_str(), form.proxy_port_placeholder()), ("443", "443"));
    form.proxy_port = "3128".to_string();
    form.choose_proxy("http".to_string());
    assert_eq!((form.proxy_port.as_str(), form.proxy_port_placeholder()), ("3128", "8080"));
    form.proxy_port = "8080".to_string();
    form.choose_proxy("none".to_string());
    assert_eq!(form.proxy_port, "");
    assert!(!form.proxy_enabled());
}

#[test]
fn configured_hosts_fill_the_form() {
    let mut form = default_form();
    form.fill_host(ResolvedHost {
        host: "10.0.0.1".to_string(),
        port: 2222,
        user: "root".to_string(),
        identity_file: Some("~/.ssh/id_ed25519".to_string()),
    });
    assert_eq!((form.port.as_str(), form.auth_type.as_str()), ("2222", "key"));
    form.fill_host(ResolvedHost {
        host: "b".to_string(),
        port: 22,
        user: "u".to_string(),
        identity_file: None,
    });
    assert_eq!((form.auth_type.as_str(), form.key_path.as_str()), ("agent", "~/.ssh/id_ed25519"));
    form.choose_group("g".to_string());
    assert_eq!(form.group_id.as_deref(), Some("g"));
    form.choose_group(String::new());
    assert_eq!(form.group_id, None);
    form.toggle_onekey();
    assert!(form.onekey);
    assert_eq!(form.password_placeholder(true), "Enter password");
    assert_eq!(
        host_hint(Some("/etc/ssh"), 3).as_deref(),
        Some("提示：从 /etc/ssh 读取到 3 个主机配置")
    );
    assert_eq!(host_hint(Some("/etc/ssh"), 0), None);
    assert_eq!(identity_hint(2).as_deref(), Some("提示：从 ~/.ssh/ 找到 2 个私钥文件"));
    assert_eq!(terminal_types().len(), 9);
}

#[test]
fn dialog_keeps_what_was_typed_for_the_same_connection() {
    let saved = connection(ssh(SshAuth::Agent, None));
    let mut editor = ConnectionEditor::new();
    editor.form.name = "typed".to_string();
    editor.seed(None);
    assert_eq!(editor.form.name, "typed");
    editor.seed(Some(&saved));
    assert_eq!(editor.form.name, "Proxied SSH");
    editor.form.name = "renamed".to_string();
    editor.seed(Some(&saved));
    match editor.submit(Some(&saved)) {
        Submission::Edit(id, form) => {
            assert_eq!((id.as_str(), form.name.as_str()), ("proxied", "renamed"));
        }
        Submission::Create(_) => panic!("the connection is edited"),
    }
    assert_eq!(editor.form.name, "renamed");
    editor.seed(None);
    editor.form.host = "h".to_string();
    match editor.submit(None) {
        Submission::Create(form) => assert_eq!(form.host, "h"),
        Submission::Edit(..) => panic!("the connection is new"),
    }
    assert_eq!(editor.form.host, "");
    assert_eq!((dialog_title(true), submit_label(true)), ("Edit SSH Connection", "Save"));
    assert_eq!((dialog_title(false), submit_label(false)), ("New SSH Connection", "Connect"));
}

#[test]
fn master_password_is_handed_on_once() {
    let mut form = MasterPasswordForm::new();
    assert_eq!(form.submit(UnlockState::Locked), None);
    form.password = "secret".to_string();
    assert!(form.can_submit(UnlockState::Locked));
    assert!(!form.can_submit(UnlockState::FirstRun));
    assert!(!form.shows_mismatch(UnlockState::FirstRun));
    form.confirm = "secre".to_string();
    assert!(form.shows_mismatch(UnlockState::FirstRun));
    form.confirm = "secret".to_string();
    assert_eq!(form.button_key(UnlockState::FirstRun), "master_password.create_and_unlock");
    assert_eq!(form.submit(UnlockState::FirstRun).as_deref(), Some("secret"));
    assert_eq!(form.submit(UnlockState::FirstRun), None);
    assert_eq!(form.button_key(UnlockState::FirstRun), "master_password.verifying");
    form.error_shown(false);
    assert!(form.loading);
    form.error_shown(true);
    assert!(form.can_submit(UnlockState::FirstRun));
    assert_eq!(form.visibility(), ("password", "common.show"));
    form.toggle_visibility();
    assert_eq!(form.visibility(), ("text", "common.hide"));
    assert_eq!(title_key(UnlockState::Locked), "master_password.unlock_title");
    assert_eq!(subtitle_key(UnlockState::FirstRun), "master_password.create_subtitle");
}

#[test]
fn sign_in_shows_how_far_it_is() {
    let expired = status_banner(&FeishuQrPopupStatus::Scanning, true, Language::En, &catalog());
    assert_eq!((expired.color, expired.text.as_str()), ("#f7768e", "expired"));
    let running = status_banner(&FeishuQrPopupStatus::Scanning, false, Language::En, &catalog());
    assert_eq!((running.color, running.text.as_str()), ("#7aa2f7", "feishu.qr_fetching"));
    let failed = FeishuQrPopupStatus::Failed { reason: "denied".to_string() };
    let shown = status_banner(&failed, false, Language::En, &catalog());
    assert_eq!(shown.text, "failed: denied");
    let done = status_banner(&FeishuQrPopupStatus::Delivered, true, Language::En, &catalog());
    assert_eq!(done.background, "background:#163a2d;");
    assert_eq!(rusterm_panels::feishu_qr_popup::subtitle_key(false), "feishu.qr_subtitle_settings");
}

#[test]
fn shadow_dialogs_say_what_is_unknown() {
    assert_eq!(working_directory_label(Some("/srv"), Language::En, &catalog()), "/srv");
    assert_eq!(working_directory_label(None, Language::En, &catalog()), "unknown");
    assert_eq!(exit_label(Some(-1), Language::En, &catalog()), "-1");
    assert_eq!(exit_label(None, Language::En, &catalog()), "none");
    assert_eq!(
        truncation_note(true, Language::En, &catalog()).as_deref(),
        Some("over 64 KiB")
    );
    assert_eq!(truncation_note(false, Language::En, &catalog()), None);
}

#[test]
fn restore_dialog_counts_the_sessions() {
    assert_eq!(
        detected_text(3, "09:30", Language::En, &catalog()),
        "3 sessions of 09:30"
    );
    let row = RestoreSessionSummary {
        name: "user@host".to_string(),
        detail: "SSH".to_string(),
        has_replay: true,
    };
    assert!(row.has_replay);
    assert_eq!(fill("{a}{b}{a}", "a", "x"), "x{b}x");
}

#[test]
fn closing_is_asked_again_only_without_the_mark() {
    let mut question = CloseConfirmation::new();
    assert_eq!(
        question.answer(false),
        CloseDecision { exits: false, confirm_close_on_exit: false }
    );
    question.toggle();
    assert_eq!(
        question.answer(true),
        CloseDecision { exits: true, confirm_close_on_exit: true }
    );
}

#[test]
fn icons_have_outlines() {
    assert_eq!(icon_path(IconName::Plus), "M12 5v14M5 12h14");
    assert_ne!(icon_path(IconName::Eye), icon_path(IconName::EyeOff));
}
