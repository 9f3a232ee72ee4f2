//! The API panel: generated scripts, templates, and the selection of sessions.

use rusterm_panels::api_panel::{
    base_url, clipboard_script, default_user, delete_template, derive_active_host_id_from,
    derive_follow_selection, derive_sessions_from, preset_templates, presets_for, session_ids,
    template_form_prefill, template_mode_of, templates_for, AccountForm, ApiTemplateMode,
    CurlInputs, CurlMode, CustomApiTemplate, RelaySwitch, Selection, TemplateForm,
};
use rusterm_panels::curl::{plain_command, trim_slashes, CurlPayload, CurlPreviewParts};
use rusterm_panels::i18n::{Catalog, Language, Message};
use rusterm_panels::model::{
    account_exists, remove_account, AppState, ConnectionConfig, ConnectionKind, RelayAccount,
    SessionConfig, SessionTab, SessionType, SshAuth, SshConfig,
};
use rusterm_panels::shell::{shell_escape, shell_quote};

fn message(key: &str, zh: &str, en: &str) -> Message {
    Message { key: key.to_string(), zh: zh.to_string(), en: en.to_string() }
}

fn catalog() -> Catalog {
    Catalog {
        messages: vec![
            message(
                "api.command_marker_title",
                "立即执行；此函数后续仍可复用",
                "RUN NOW; THE FUNCTION REMAINS REUSABLE",
            ),
            message("api.command_marker_help", "修改命令后再次执行", "Edit the command and run again"),
            message("api.function_usage", "用法：rusterm <命令...>", "Usage: rusterm <command...>"),
            message("api.missing_config", "缺少 RUSTERM_API_URL", "RUSTERM_API_URL is missing"),
            message("api.missing_user", "缺少 RUSTERM_API_USER", "RUSTERM_API_USER is missing"),
            message("api.no_hosts", "没有主机", "No hosts"),
            message("api.password_not_tty", "需要终端", "A terminal is needed"),
            message("api.password_prompt", "RusTerm API 密码：", "RusTerm API password: "),
            message("api.request_failed", "失败", "failed"),
            message("api.account_exists", "账户 {name} 已存在", "account {name} exists"),
            message("api.fill_user_pass", "请填写", "fill in both"),
            message("api.saved", "已保存", "saved"),
            message("api.template_fill_required", "请填写模板", "fill in the template"),
        ],
    }
}

fn gen_curl(
    url: &str,
    default_user: &str,
    sessions: &[String],
    payload: &CurlPayload,
    elevated: bool,
) -> String {
    rusterm_panels::curl::gen_curl(
        url,
        default_user,
        &sessions.to_vec(),
        payload,
        elevated,
        Language::Zh,
        &catalog(),
    )
}

fn gen_curl_preview(
    url: &str,
    default_user: &str,
    sessions: &[String],
    payload: &CurlPayload,
    elevated: bool,
) -> CurlPreviewParts {
    gen_curl_preview_for_language(url, default_user, sessions, payload, elevated, Language::Zh)
}

fn gen_curl_preview_for_language(
    url: &str,
    default_user: &str,
    sessions: &[String],
    payload: &CurlPayload,
    elevated: bool,
    language: Language,
) -> CurlPreviewParts {
    rusterm_panels::curl::gen_curl_preview_for_language(
        url,
        default_user,
        &sessions.to_vec(),
        payload,
        elevated,
        language,
        &catalog(),
    )
}

fn no_sessions() -> AppState {
    AppState { sessions: Vec::new(), active_session: None, session_configs: Vec::new() }
}

fn ssh_tab(id: &str, name: &str, hostname: Option<&str>) -> SessionTab {
    SessionTab {
        id: id.to_string(),
        name: name.to_string(),
        kind: SessionType::Ssh,
        hostname: hostname.map(str::to_string),
    }
}

fn ssh_conn(id: &str, name: &str, host: &str) -> ConnectionConfig {
    ConnectionConfig {
        id: id.to_string(),
        name: name.to_string(),
        kind: ConnectionKind::Ssh(SshConfig {
            host: host.to_string(),
            port: 22,
            username: "root".to_string(),
            auth: SshAuth::Agent,
            terminal_type: "xterm-256color".to_string(),
            proxy: None,
        }),
        group: None,
        onekey: false,
        login_script: None,
    }
}

fn configured(tab_id: &str, config: ConnectionConfig) -> SessionConfig {
    SessionConfig { tab_id: tab_id.to_string(), config }
}

#[test]
fn template_mode_maps_every_curl_mode_to_a_distinct_persisted_mode() {
    // Custom templates are stored per mode; the mapping must be 1:1 so a
    // template saved in one tab never leaks into another tab's chip row.
    assert_eq!(
        template_mode_of(CurlMode::Command),
        ApiTemplateMode::Command
    );
    assert_eq!(template_mode_of(CurlMode::Script), ApiTemplateMode::Script);
    assert_eq!(
        template_mode_of(CurlMode::ScriptBase64),
        ApiTemplateMode::ScriptBase64
    );
}

#[test]
fn curl_includes_endpoint_user_and_body() {
    let curl = gen_curl(
        "http://127.0.0.1:8080",
        "alice",
        &[],
        &CurlPayload::Command("uname -a".to_string()),
        true,
    );
    assert!(
        curl.contains("export RUSTERM_API_URL='http://127.0.0.1:8080'")
            && curl.contains("\"${RUSTERM_API_URL}/r/${RUSTERM_TARGET}${RUSTERM_ELEVATED}\""),
        "missing short-form endpoint export/use: {curl}"
    );
    assert!(curl.contains("export RUSTERM_API_USER='alice'"), "{curl}");
    assert!(
        curl.contains("rusterm() {"),
        "missing reusable function: {curl}"
    );
    assert!(
        curl.contains("RUSTERM_HOSTS='HOST'"),
        "placeholder target must be baked into the function: {curl}"
    );
    assert!(
        !curl.contains("\"${RUSTERM_API_URL}/r\""),
        "command template must not discover historical hosts: {curl}"
    );
    assert!(
        curl.contains("if [ \"$1\" = \"--refresh\" ]; then"),
        "function must support credential refresh: {curl}"
    );
    assert!(curl.contains("--data-binary \"$*\""), "{curl}");
    assert!(curl.contains("--header 'Accept: text/plain'"), "{curl}");
    assert!(
        curl.contains("--header 'Content-Type: text/plain; charset=utf-8'"),
        "{curl}"
    );
    assert!(curl.contains("IFS= read -r RUSTERM_API_PASSWORD"), "{curl}");
    assert!(curl.ends_with("rusterm uname -a\n"), "{curl}");
    assert!(!curl.contains("/api/v1/exec"), "{curl}");
    assert!(!curl.contains(r#"\"command\""#), "{curl}");
    assert!(!curl.contains(":PASS"), "{curl}");
}

#[test]
fn curl_generates_one_pretty_request_per_selected_session() {
    let curl = gen_curl(
        "http://127.0.0.1:8080",
        "alice",
        &["host-a".to_string(), "host-b".to_string()],
        &CurlPayload::Command("uptime".to_string()),
        false,
    );

    assert_eq!(curl.matches("rusterm() {").count(), 1, "{curl}");
    assert!(
        curl.contains("RUSTERM_HOSTS='host-a\nhost-b'"),
        "selected hosts must be baked into the command template: {curl}"
    );
    assert!(
        curl.contains("for RUSTERM_TARGET in $RUSTERM_HOSTS; do"),
        "loop must iterate only the selected host snapshot: {curl}"
    );
    assert!(
        !curl.contains("\"${RUSTERM_API_URL}/r\""),
        "command template must not discover historical hosts: {curl}"
    );
    // Multi-host marker is emitted conditionally on RUSTERM_COUNT > 1.
    assert!(
        curl.contains(
            "[ \"$RUSTERM_COUNT\" -gt 1 ] && printf '\\n==> %s\\n' \"$RUSTERM_TARGET\""
        ),
        "{curl}"
    );
    assert!(curl.matches("--data-binary \"$*\"").count() >= 1, "{curl}");
    assert!(
        curl.contains("\"${RUSTERM_API_URL}/r/${RUSTERM_TARGET}\""),
        "non-elevated calls should not add an elevated query: {curl}"
    );
    assert!(curl.contains("if [ ! -t 0 ]; then"), "{curl}");
    assert!(curl.contains("RUSTERM_ELEVATED=''"), "{curl}");
    assert!(
        curl.contains("--silent --show-error --fail-with-body"),
        "{curl}"
    );
    assert!(
        curl.contains("--connect-timeout 10 --max-time 120"),
        "{curl}"
    );
}

#[test]
fn curl_command_mode_uses_only_the_selected_host_snapshot() {
    let curl = gen_curl(
        "http://relay.example:8877",
        "ops",
        &[
            "100eac5a-2ef7-427f-84e1-9e03e2b61820".to_string(),
            "staging-host".to_string(),
        ],
        &CurlPayload::Command("uname -a".to_string()),
        true,
    );

    assert!(
        curl.contains("RUSTERM_HOSTS='100eac5a-2ef7-427f-84e1-9e03e2b61820\nstaging-host'"),
        "selected hosts must be baked into the command template: {curl}"
    );
    assert!(
        !curl.contains("RUSTERM_HOSTS=$(curl"),
        "selected targets must not come from a runtime request: {curl}"
    );
    assert!(
        !curl.contains("\"${RUSTERM_API_URL}/r\""),
        "command template must not fetch all reusable hosts: {curl}"
    );
    assert!(
        !curl.contains("if [ -z \"${RUSTERM_HOSTS+x}\" ]; then"),
        "an inherited RUSTERM_HOSTS must not override the selected snapshot: {curl}"
    );
    assert!(
        curl.contains("if [ \"$1\" = \"--refresh\" ]; then"),
        "function must handle credential refresh: {curl}"
    );
    assert!(
        curl.contains("unset RUSTERM_API_PASSWORD"),
        "--refresh must clear cached credentials: {curl}"
    );
    assert!(
        !curl.contains("unset RUSTERM_HOSTS"),
        "--refresh must not switch away from selected hosts: {curl}"
    );

    assert!(
        curl.contains("if [ -z \"$RUSTERM_HOSTS\" ]; then"),
        "{curl}"
    );
    assert!(
        curl.contains("RUSTERM_API_URL=$(printf '%s' \"$RUSTERM_API_URL\" | tr -d '\\r')"),
        "{curl}"
    );
    assert!(
        curl.contains("[ -z \"$RUSTERM_TARGET\" ] && continue"),
        "{curl}"
    );

    // Elevated requests still fall back per host when sudo authorization
    // is unavailable, without affecting requests to other selected hosts.
    assert!(curl.contains("if [ ! -t 0 ]; then"), "{curl}");
    assert!(curl.contains("RUSTERM_ELEVATED='?elevated=true'"), "{curl}");
    assert!(curl.contains("*elevation_required*)"), "{curl}");
    assert!(
        curl.contains("\"${RUSTERM_API_URL}/r/${RUSTERM_TARGET}${RUSTERM_ELEVATED}\""),
        "elevated must be forwarded as a query param: {curl}"
    );
    assert!(
        curl.contains("\"${RUSTERM_API_URL}/r/${RUSTERM_TARGET}\""),
        "elevation_required must fall back to a normal request: {curl}"
    );
}


#[test]
fn curl_script_copy_follows_the_requested_language() {
    let sessions = ["prod-web".to_string()];
    let english = gen_curl_preview_for_language(
        "http://127.0.0.1:8080",
        "alice",
        &sessions,
        &CurlPayload::Command("docker ps".to_string()),
        true,
        Language::En,
    )
    .into_script();
    let chinese = gen_curl_preview_for_language(
        "http://127.0.0.1:8080",
        "alice",
        &sessions,
        &CurlPayload::Command("docker ps".to_string()),
        true,
        Language::Zh,
    )
    .into_script();

    assert!(
        english.contains("# RUN NOW; THE FUNCTION REMAINS REUSABLE"),
        "{english}"
    );
    assert!(english.contains("RusTerm API password: "), "{english}");
    assert!(english.contains("Usage: rusterm <command...>"), "{english}");
    assert!(
        !english.contains("立即执行；此函数后续仍可复用"),
        "{english}"
    );
    assert!(
        chinese.contains("# 立即执行；此函数后续仍可复用"),
        "{chinese}"
    );
    assert!(chinese.contains("RusTerm API 密码："), "{chinese}");
    assert!(chinese.contains("用法：rusterm <命令...>"), "{chinese}");
    assert!(
        !chinese.contains("RUN NOW; THE FUNCTION REMAINS REUSABLE"),
        "{chinese}"
    );
    for script in [english, chinese] {
        assert!(script.ends_with("rusterm docker ps\n"), "{script}");
        assert!(!script.contains(r#"\"command\""#), "{script}");
    }
}

#[test]
fn curl_escapes_json_special_chars_in_command() {
    let curl = gen_curl(
        "http://x",
        "u",
        &["h".to_string()],
        &CurlPayload::Command(r#"echo "hi" 'there' \n"#.to_string()),
        false,
    );
    assert!(
        curl.ends_with("rusterm 'echo \"hi\" '\"'\"'there'\"'\"' \\n'\n"),
        "shell-sensitive commands must be emitted as one safely quoted argument: {curl}"
    );
    assert!(!curl.contains(r#"\"command\""#), "{curl}");
}

#[test]
fn curl_preview_highlights_only_the_json_command_value() {
    let preview = gen_curl_preview(
        "http://repeat.example",
        "repeat",
        &["repeat".to_string()],
        &CurlPayload::Command("repeat".to_string()),
        true,
    );
    let marked = format!(
        "{}<mark>{}</mark>{}",
        preview.before_command, preview.command, preview.after_command
    );

    assert_eq!(marked.matches("<mark>").count(), 1);
    assert!(
        marked.ends_with("rusterm <mark>repeat</mark>\n"),
        "highlight must wrap only the sample command: {marked}"
    );
}

#[test]
fn curl_preview_highlight_preserves_json_and_shell_escaping() {
    let preview = gen_curl_preview(
        "http://x",
        "u",
        &["h".to_string()],
        &CurlPayload::Command(r#"echo "hi" 'there' \n"#.to_string()),
        false,
    );

    assert_eq!(preview.command, r#"echo "hi" '"'"'there'"'"' \n"#);
    let marked = format!(
        "{}<mark>{}</mark>{}",
        preview.before_command, preview.command, preview.after_command
    );
    assert!(
        marked.ends_with("rusterm '<mark>echo \"hi\" '\"'\"'there'\"'\"' \\n</mark>'\n"),
        "outer quotes must stay outside the highlighted command: {marked}"
    );
}

#[test]
fn curl_preview_handles_an_empty_command() {
    let preview = gen_curl_preview(
        "http://x",
        "u",
        &["h".to_string()],
        &CurlPayload::Command(String::new()),
        false,
    );

    assert!(preview.command.is_empty());
    let script = preview.into_script();
    assert!(
        script.ends_with("# rusterm <command...>\n"),
        "an empty command should leave a reusable example instead of executing: {script}"
    );
}

#[test]
fn curl_handles_missing_session_with_placeholder() {
    // Every mode uses an explicit placeholder when no session is selected;
    // command mode must never fall back to discovering historical hosts.
    let curl = gen_curl(
        "http://x",
        "u",
        &[],
        &CurlPayload::Command("ls".to_string()),
        false,
    );
    assert!(
        curl.contains("RUSTERM_HOSTS='HOST'"),
        "command mode should use an explicit HOST placeholder: {curl}"
    );
    assert!(
        !curl.contains("\"${RUSTERM_API_URL}/r\""),
        "command mode must not discover historical hosts: {curl}"
    );

    // Script / base64 mode follows the same placeholder behavior.
    let script = gen_curl(
        "http://x",
        "u",
        &[],
        &CurlPayload::Script("echo hi\n".to_string()),
        false,
    );
    assert!(
        script.contains("'HOST'"),
        "script mode should still use HOST placeholder: {script}"
    );
}

#[test]
fn curl_script_mode_emits_script_field() {
    let curl = gen_curl(
        "http://x",
        "u",
        &["h".to_string()],
        &CurlPayload::Script("#!/bin/sh\necho hi\n".to_string()),
        false,
    );
    assert!(
        curl.contains(r#""script":""#),
        "script mode must emit a script field: {curl}"
    );
    assert!(
        !curl.contains(r#""command":""#),
        "script mode must not emit a command field: {curl}"
    );
    // Newlines in the script are JSON-escaped as the two-character
    // sequence \n so the --data arg stays a single shell-quoted string.
    // serde_json does not escape `/`, so the shebang line stays as `#!`.
    assert!(
        curl.contains(r##""script":"#!"##),
        "script must start with the shebang: {curl}"
    );
    // The literal two-character backslash-n sequence must appear
    // (JSON-escaped newline). serde_json escapes newline as \n.
    assert!(
        curl.contains(r##"echo hi\n""##),
        "script newline must be JSON-escaped as backslash-n: {curl}"
    );
}

#[test]
fn curl_script_base64_mode_emits_script_base64_field() {
    let curl = gen_curl(
        "http://x",
        "u",
        &["h".to_string()],
        &CurlPayload::ScriptBase64("IyEvYmluL3NoCmVjaG8gaGkK".to_string()),
        false,
    );
    assert!(
        curl.contains(r#""script_base64":"IyEvYmluL3NoCmVjaG8gaGkK""#),
        "base64 mode must emit a script_base64 field: {curl}"
    );
    assert!(
        !curl.contains(r#""command":""#) && !curl.contains(r#""script":""#),
        "base64 mode must not emit command or script fields: {curl}"
    );
}

#[test]
fn curl_script_mode_highlights_script_value() {
    let preview = gen_curl_preview(
        "http://x",
        "u",
        &["h".to_string()],
        &CurlPayload::Script("echo hello".to_string()),
        false,
    );
    let marked = format!(
        "{}<mark>{}</mark>{}",
        preview.before_command, preview.command, preview.after_command
    );
    assert_eq!(marked.matches("<mark>").count(), 1);
    assert!(
        marked.contains(r#""script":"<mark>echo hello</mark>""#),
        "highlight must wrap the script field value: {marked}"
    );
}

#[test]
fn curl_script_mode_supports_multiple_hosts() {
    let curl = gen_curl(
        "http://x",
        "u",
        &["host-a".to_string(), "host-b".to_string()],
        &CurlPayload::Script("uptime\n".to_string()),
        false,
    );
    assert_eq!(curl.matches("rusterm_exec '").count(), 2, "{curl}");
    assert!(curl.contains(r#"host_id":"host-a"#), "{curl}");
    assert!(curl.contains(r#"host_id":"host-b"#), "{curl}");
    // Both hosts carry the script field.
    assert_eq!(curl.matches(r#""script":""#).count(), 2, "{curl}");
}

#[test]
fn base_url_prefers_running_url() {
    assert_eq!(
        base_url(&Some("http://1.2.3.4:90/".to_string()), "127.0.0.1", 8080),
        "http://1.2.3.4:90"
    );
}

#[test]
fn base_url_falls_back_to_bind_and_port() {
    assert_eq!(base_url(&None, "127.0.0.1", 8080), "http://127.0.0.1:8080");
    // 0.0.0.0 is shown as 127.0.0.1 so the local curl preview works.
    assert_eq!(base_url(&None, "0.0.0.0", 8080), "http://127.0.0.1:8080");
}


#[test]
fn derive_sessions_marks_jumped_bastion_sessions_with_an_arrow() {
    let mut state = no_sessions();
    // Tab A: plain SSH to web-1, live hostname matches configured host.
    state
        .sessions
        .push(ssh_tab("tab-a", "web-1", Some("web-1")));
    state.session_configs.push(configured("tab-a", ssh_conn("conn-a", "web-1", "web-1")));
    // Tab B: jumpserver connection whose live tab is sitting on a backend
    // node (k8s-node-202-216) — the configured host is the bastion.
    state
        .sessions
        .push(ssh_tab("tab-b", "jumpserver", Some("k8s-node-202-216")));
    state.session_configs.push(configured("tab-b", ssh_conn("conn-b", "jumpserver", "jumpserver.example.com")));

    let sessions = derive_sessions_from(&state);
    let web1 = sessions
        .iter()
        .find(|(id, _)| id == "conn-a@tab-a")
        .unwrap();
    let jump = sessions
        .iter()
        .find(|(id, _)| id == "conn-b@tab-b")
        .unwrap();
    // Plain session uses parentheses (no jump).
    assert_eq!(web1.1, "web-1 (web-1)");
    // Jumped session uses the arrow to flag the bastion → target hop.
    assert_eq!(jump.1, "jumpserver \u{279c} k8s-node-202-216");
}

/// Two tabs opened from the same jumpserver connection can sit on
/// different target nodes — each must get its own selector so relay
/// requests route to the exact tab (a bare connection id would let the
/// executor pick an arbitrary sibling tab and hit the wrong node).
#[test]
fn derive_sessions_gives_same_connection_tabs_distinct_selectors() {
    let mut state = no_sessions();
    state
        .sessions
        .push(ssh_tab("tab-a", "jumpserver", Some("k8s-master-0001")));
    state
        .sessions
        .push(ssh_tab("tab-b", "jumpserver", Some("k8s-node-0002")));
    for tab in ["tab-a", "tab-b"] {
        let conn = ssh_conn("conn-j", "jumpserver", "jumpserver.example.com");
        state.session_configs.push(configured(tab, conn));
    }

    let sessions = derive_sessions_from(&state);
    let ids: Vec<&str> = sessions.iter().map(|(id, _)| id.as_str()).collect();
    assert_eq!(ids, vec!["conn-j@tab-a", "conn-j@tab-b"]);
}

#[test]
fn derive_sessions_falls_back_to_name_when_hostname_unknown() {
    let mut state = no_sessions();
    state.sessions.push(ssh_tab("tab-a", "web-1", None));
    state.session_configs.push(configured("tab-a", ssh_conn("conn-a", "web-1", "web-1")));

    let sessions = derive_sessions_from(&state);
    let entry = sessions
        .iter()
        .find(|(id, _)| id == "conn-a@tab-a")
        .unwrap();
    // No live hostname yet → plain name, no parentheses/arrow.
    assert_eq!(entry.1, "web-1");
}

#[test]
fn derive_active_host_id_resolves_active_ssh_tab_connection_id() {
    let mut state = no_sessions();
    state
        .sessions
        .push(ssh_tab("tab-a", "web-1", Some("web-1")));
    state
        .sessions
        .push(ssh_tab("tab-b", "web-2", Some("web-2")));
    state.session_configs.push(configured("tab-a", ssh_conn("conn-a", "web-1", "web-1")));
    state.session_configs.push(configured("tab-b", ssh_conn("conn-b", "web-2", "web-2")));
    // Active tab is tab-b → session-qualified selector conn-b@tab-b.
    state.active_session = Some("tab-b".to_string());

    assert_eq!(
        derive_active_host_id_from(&state),
        Some("conn-b@tab-b".to_string())
    );
}

#[test]
fn derive_follow_selection_prefers_active_session_then_first() {
    let sessions = vec![
        ("conn-a".to_string(), "web-1".to_string()),
        ("conn-b".to_string(), "web-2".to_string()),
    ];
    // Active host id present in sessions → that one.
    assert_eq!(
        derive_follow_selection(&Some("conn-b".to_string()), &sessions),
        Some(vec!["conn-b".to_string()])
    );
    // Active host id not in sessions → fall back to first.
    assert_eq!(
        derive_follow_selection(&Some("conn-z".to_string()), &sessions),
        Some(vec!["conn-a".to_string()])
    );
    // No active host id → first.
    assert_eq!(
        derive_follow_selection(&None, &sessions),
        Some(vec!["conn-a".to_string()])
    );
    // No sessions at all → None.
    assert_eq!(derive_follow_selection(&None, &Vec::new()), None);
}

#[test]
fn preset_templates_generate_safe_scripts() {
    let templates = preset_templates();
    assert!(!templates.is_empty(), "preset templates must exist");

    let sessions = ["host-a".to_string(), "host-b".to_string()];
    for tmpl in templates {
        let payload = match tmpl.mode {
            CurlMode::Command => CurlPayload::Command(tmpl.body.to_string()),
            CurlMode::Script => CurlPayload::Script(tmpl.body.to_string()),
            CurlMode::ScriptBase64 => CurlPayload::ScriptBase64(tmpl.body.to_string()),
        };
        let script = gen_curl(
            "http://relay.example:8877",
            "ops",
            &sessions,
            &payload,
            false,
        );

        // No template may cause the generated script to discover
        // historical sessions at runtime.
        assert!(
            !script.contains("\"${RUSTERM_API_URL}/r\""),
            "template {:?} must not fetch all hosts: {script}",
            tmpl.label,
        );

        // Command-mode templates must bake the selected host snapshot
        // into the generated function.
        if tmpl.mode == CurlMode::Command {
            assert!(
                script.contains("RUSTERM_HOSTS='host-a\nhost-b'"),
                "template {:?} must bake selected hosts: {script}",
                tmpl.label,
            );
            assert!(
                !script.contains("RUSTERM_HOSTS=$(curl"),
                "template {:?} must not discover hosts at runtime: {script}",
                tmpl.label,
            );
            assert!(
                !script.contains("if [ -z \"${RUSTERM_HOSTS+x}\" ]; then"),
                "template {:?} must not guard with RUSTERM_HOSTS+x: {script}",
                tmpl.label,
            );
        }
    }
}

#[test]
fn modes_keep_their_own_templates() {
    let template = |label: &str, mode: ApiTemplateMode| CustomApiTemplate {
        label: label.to_string(),
        mode,
        body: "x".to_string(),
    };
    let mut list = vec![
        template("a", ApiTemplateMode::Command),
        template("b", ApiTemplateMode::Script),
        template("c", ApiTemplateMode::Command),
    ];
    assert_eq!(templates_for(&list, CurlMode::Command), vec![0, 2]);
    assert_eq!(templates_for(&list, CurlMode::Script), vec![1]);
    assert!(templates_for(&list, CurlMode::ScriptBase64).is_empty());
    assert_eq!(presets_for(CurlMode::Command), (0..8).collect::<Vec<usize>>());
    assert_eq!(presets_for(CurlMode::Script), vec![8, 9]);
    assert!(presets_for(CurlMode::ScriptBase64).is_empty());
    delete_template(&mut list, 9);
    assert_eq!(list.len(), 3);
    delete_template(&mut list, 0);
    assert_eq!(list[0].label, "b");
}

#[test]
fn template_form_takes_its_label_from_a_command() {
    assert_eq!(
        template_form_prefill(CurlMode::Command, "  uptime ", "s", "b"),
        ("uptime".to_string(), "uptime".to_string())
    );
    let long = "0123456789012345678901234567890";
    assert_eq!(
        template_form_prefill(CurlMode::Command, long, "", "").0,
        "012345678901234567890123456789\u{2026}"
    );
    assert_eq!(
        template_form_prefill(CurlMode::Script, "c", " echo\n", "b"),
        (String::new(), "echo".to_string())
    );
}

#[test]
fn template_form_refuses_an_empty_label_or_text() {
    let mut list = Vec::new();
    let mut form = TemplateForm {
        adding: true,
        label: "  ".to_string(),
        body: "uptime".to_string(),
        error: String::new(),
    };
    assert!(!form.save(&mut list, CurlMode::Command, Language::En, &catalog()));
    assert_eq!(form.error, "fill in the template");
    assert!(form.adding && list.is_empty());
    form.label = " up ".to_string();
    assert!(form.save(&mut list, CurlMode::Script, Language::En, &catalog()));
    assert_eq!(list[0].label, "up");
    assert_eq!(list[0].mode, ApiTemplateMode::Script);
    assert!(!form.adding && form.body.is_empty() && form.error.is_empty());
}

#[test]
fn template_form_opens_filled_from_the_inputs() {
    let mut inputs = CurlInputs::opened();
    inputs.load(CurlMode::Command, "df -h");
    let mut form = TemplateForm {
        adding: false,
        label: String::new(),
        body: String::new(),
        error: String::new(),
    };
    form.toggle(&inputs);
    assert!(form.adding);
    assert_eq!((form.label.as_str(), form.body.as_str()), ("df -h", "df -h"));
    form.error = "e".to_string();
    form.toggle(&inputs);
    assert!(!form.adding && form.error.is_empty());
    form.adding = true;
    form.cancel();
    assert!(!form.adding);
}

#[test]
fn inputs_become_the_payload_of_their_mode() {
    let mut inputs = CurlInputs::opened();
    inputs.load(CurlMode::Script, "echo hi");
    assert!(matches!(inputs.payload(), CurlPayload::Command(text) if text == "uname -a"));
    inputs.mode = CurlMode::Script;
    assert!(matches!(inputs.payload(), CurlPayload::Script(text) if text == "echo hi"));
    inputs.mode = CurlMode::ScriptBase64;
    inputs.load(CurlMode::ScriptBase64, "ZQ==");
    assert!(matches!(inputs.payload(), CurlPayload::ScriptBase64(text) if text == "ZQ=="));
}

#[test]
fn clipboard_script_holds_a_json_string() {
    assert_eq!(
        clipboard_script("a\"b\\c\n\u{1}é"),
        "navigator.clipboard.writeText(\"a\\\"b\\\\c\\n\\u0001é\")"
    );
    assert_eq!(
        clipboard_script("\u{8}\u{c}\r\t/\u{7f}\u{1f}"),
        "navigator.clipboard.writeText(\"\\b\\f\\r\\t/\u{7f}\\u001f\")"
    );
}

#[test]
fn script_body_lists_its_members_by_name() {
    let curl = gen_curl(
        "http://x",
        "u",
        &["h".to_string()],
        &CurlPayload::Script("a'b".to_string()),
        true,
    );
    assert!(
        curl.contains(
            "rusterm_exec 'h' '{\"elevated\":true,\"host_id\":\"h\",\"script\":\"a'\"'\"'b\"}'"
        ),
        "{curl}"
    );
}

#[test]
fn words_are_plain_only_with_ordinary_characters() {
    assert!(plain_command("uname -a"));
    assert!(plain_command("ls /tmp/é"));
    assert!(!plain_command(""));
    assert!(!plain_command(" ls"));
    assert!(!plain_command("ls  -a"));
    assert!(!plain_command("echo $HOME"));
    assert!(!plain_command("a;b"));
    for special in "\t\n|&;<>()$`\\*?[]#~{}!^'\"".chars() {
        assert!(!plain_command(&format!("a{special}b")), "{special}");
    }
    assert_eq!(trim_slashes("http://x//"), "http://x");
    assert_eq!(trim_slashes("//"), "");
}

#[test]
fn shell_quoting_keeps_a_text_one_word() {
    assert_eq!(shell_escape("it's"), "it'\"'\"'s");
    assert_eq!(shell_quote("it's"), "'it'\"'\"'s'");
    assert_eq!(shell_quote(""), "''");
    assert_eq!(
        shell_escape("a'") + &shell_escape("'b"),
        shell_escape("a''b")
    );
}

#[test]
fn selection_follows_the_active_session_until_the_user_chooses() {
    let sessions = vec![
        ("a".to_string(), "web-1".to_string()),
        ("b".to_string(), "jump \u{279c} node".to_string()),
    ];
    let active = Some("b".to_string());
    let mut selection = Selection::opened(&active, &sessions);
    assert_eq!(selection.selected, vec!["b"]);
    assert!(selection.jumped(&sessions));
    selection.toggle("a", true);
    selection.toggle("a", true);
    assert_eq!(selection.selected, vec!["b", "a"]);
    assert!(selection.user_overrode);
    selection.auto_follow(&Some("a".to_string()), &sessions);
    assert_eq!(selection.selected, vec!["b", "a"]);
    selection.toggle("b", false);
    assert_eq!(selection.selected, vec!["a"]);
    assert!(!selection.jumped(&sessions));
    selection.follow_active(&active, &sessions);
    assert_eq!(selection.selected, vec!["b"]);
    assert!(!selection.user_overrode);
    selection.select_all(&sessions);
    assert_eq!(selection.selected, session_ids(&sessions));
    selection.clear();
    assert!(selection.selected.is_empty());
}

#[test]
fn selection_drops_sessions_that_are_gone() {
    let one = vec![("a".to_string(), "web-1".to_string())];
    let mut selection = Selection {
        selected: vec!["a".to_string(), "gone".to_string()],
        user_overrode: true,
    };
    selection.reconcile(&None, &one);
    assert_eq!(selection.selected, vec!["a"]);
    assert!(selection.user_overrode);
    let other = vec![("z".to_string(), "web-9".to_string())];
    selection.reconcile(&None, &other);
    assert_eq!(selection.selected, vec!["z"]);
    assert!(!selection.user_overrode);
}

fn account(name: &str) -> RelayAccount {
    RelayAccount {
        username: name.to_string(),
        password_hash: "h".to_string(),
        allowed_hosts: Vec::new(),
        allowed_commands: Vec::new(),
        readonly: false,
    }
}

#[test]
fn accounts_are_added_once_and_removed_by_name() {
    let mut accounts = vec![account("ops")];
    assert_eq!(default_user(&accounts), "ops");
    assert_eq!(default_user(&Vec::new()), "USER");
    let mut form = AccountForm {
        username: " ops ".to_string(),
        password: "p".to_string(),
        readonly: true,
        error: String::new(),
    };
    assert_eq!(form.begin_add(&accounts, Language::En, &catalog()), None);
    assert_eq!(form.error, "account ops exists");
    form.password.clear();
    assert_eq!(form.begin_add(&accounts, Language::En, &catalog()), None);
    assert_eq!(form.error, "fill in both");
    form.username = "dev".to_string();
    form.password = "p".to_string();
    let name = form.begin_add(&accounts, Language::En, &catalog()).unwrap();
    form.finish_add(&mut accounts, name.clone(), Err("broken".to_string()));
    assert_eq!(form.error, "broken");
    form.finish_add(&mut accounts, name, Ok("hash".to_string()));
    assert!(account_exists(&accounts, "dev"));
    assert_eq!(accounts[1].password_hash, "hash");
    assert!(accounts[1].readonly && !form.readonly && form.username.is_empty());
    remove_account(&mut accounts, "ops");
    assert!(!account_exists(&accounts, "ops"));
    assert!(account_exists(&accounts, "dev"));
}

#[test]
fn relay_switch_follows_what_was_stored_and_started() {
    let mut relay = RelaySwitch { running: false, started_url: None, status: String::new() };
    assert!(!relay.start(Err("disk full".to_string())));
    assert_eq!(relay.status, "disk full");
    assert!(relay.start(Ok(())));
    relay.started(Err("port taken".to_string()));
    assert_eq!(relay.status, "port taken");
    relay.started(Ok(Some("http://x".to_string())));
    assert!(relay.running && relay.status.is_empty());
    assert!(!relay.stop(Err("no".to_string())));
    assert!(relay.running);
    assert!(relay.stop(Ok(())));
    assert!(!relay.running && relay.started_url.is_none());
    relay.saved(Ok(()), Language::En, &catalog());
    assert_eq!(relay.status, "saved");
    let mut port = 80u16;
    relay.port_typed(&mut port, "70000");
    assert_eq!((port, relay.status.as_str()), (80, "saved"));
    relay.port_typed(&mut port, "8877");
    assert_eq!((port, relay.status.as_str()), (8877, ""));
}
