//! The chat panel: agents, proxies, the command palette, and conversations.

use rusterm_panels::chat_panel::{
    begin_preset_refresh, bubble_style, builtin_commands, clash_feedback, command_session,
    find_agent, history_prefix,
    insert_command_script, is_loopback_base_url, needs_clash_probe, next_dock, parse_drag_report,
    preset_hint, preset_option, preset_refresh_status, provider_label, proxy_mode_from_value,
    proxy_mode_value, reported_position, resolve_proxy_selection, source_label, AgentConfig, AgentDraft, ApiKeys,
    ChatAction, ChatAgentProvider, ChatCommandEntry, ChatCommandSource, ChatDock, ChatKey,
    ChatMessage, ChatProtocol, ChatProxyMode, ChatRole, ChatSettings, Conversation, Palette,
    ProviderPreset, ProxySelection,
};
use rusterm_panels::i18n::{Catalog, Language, Message};

fn catalog() -> Catalog {
    let message = |key: &str, zh: &str, en: &str| Message {
        key: key.to_string(),
        zh: zh.to_string(),
        en: en.to_string(),
    };
    Catalog {
        messages: vec![
            message("chat.need_api_key", "需要密钥", "an API key is needed"),
            message("chat.need_model", "需要模型", "a model is needed"),
            message("chat.no_agent", "没有智能体", "no agent"),
            message("chat.request_in_flight", "请稍候", "still waiting"),
            message("chat.thinking", "思考中", "thinking"),
            message("chat.request_failed", "失败", "failed"),
            message("chat.saved", "已保存", "saved"),
            message("chat.api_key_saved", "密钥已保存", "key saved"),
            message("chat.preset_applied", "已应用", "applied"),
            message("chat.preset_open_source", "开源", "open"),
            message("chat.preset_closed_source", "闭源", "closed"),
            message("chat.preset_no_key_needed", "无需密钥", "no key needed"),
            message("chat.preset_key_hint", "获取密钥", "get a key at"),
            message("chat.preset_refreshing", "刷新中", "refreshing"),
            message("chat.preset_refreshed", "已刷新", "refreshed"),
            message("chat.preset_refresh_failed", "刷新失败", "refresh failed"),
            message("chat.proxy_clash_found", "找到", "found"),
            message("chat.proxy_clash_missing", "未找到", "not found"),
        ],
    }
}

fn agent(id: &str, provider: ChatAgentProvider) -> AgentConfig {
    AgentConfig {
        id: id.to_string(),
        name: "Agent".to_string(),
        provider,
        model: "m-1".to_string(),
        base_url: "https://api.example/v1".to_string(),
        system_prompt: "be brief".to_string(),
    }
}

fn default_settings() -> ChatSettings {
    ChatSettings {
        visible: true,
        dock: ChatDock::Floating,
        agents: vec![agent("default", ChatAgentProvider::OpenAI)],
        active_agent_id: None,
        proxy_mode: ChatProxyMode::System,
        proxy_url: String::new(),
        allow_remote_presets: false,
    }
}

#[test]
fn proxy_mode_select_values_round_trip() {
    for mode in [
        ChatProxyMode::System,
        ChatProxyMode::Off,
        ChatProxyMode::Clash,
        ChatProxyMode::Custom,
    ] {
        assert_eq!(proxy_mode_from_value(proxy_mode_value(mode)), mode);
    }
    // Unknown values fall back to the safe default (System).
    assert_eq!(proxy_mode_from_value("garbage"), ChatProxyMode::System);
}

#[test]
fn loopback_base_urls_skip_the_api_key_preflight() {
    assert!(is_loopback_base_url("http://127.0.0.1:11434/v1"));
    assert!(is_loopback_base_url("http://localhost:1234/v1"));
    assert!(is_loopback_base_url(" HTTP://LOCALHOST:8080 "));
    assert!(is_loopback_base_url("http://[::1]:11434/v1"));
    assert!(!is_loopback_base_url("https://api.openai.com/v1"));
    assert!(!is_loopback_base_url(""));
}

#[test]
fn resolve_proxy_selection_maps_persisted_modes() {
    let mut settings = default_settings();

    settings.proxy_mode = ChatProxyMode::System;
    assert!(matches!(resolve_proxy_selection(&settings, None), ProxySelection::System));

    settings.proxy_mode = ChatProxyMode::Off;
    assert!(matches!(resolve_proxy_selection(&settings, None), ProxySelection::Disabled));

    settings.proxy_mode = ChatProxyMode::Custom;
    settings.proxy_url = "http://127.0.0.1:7890".to_string();
    assert!(matches!(
        resolve_proxy_selection(&settings, None),
        ProxySelection::Url(url) if url == "http://127.0.0.1:7890"
    ));

    // Custom mode with an empty URL degrades to System (nothing to use).
    settings.proxy_url = "  ".to_string();
    assert!(matches!(resolve_proxy_selection(&settings, None), ProxySelection::System));
    assert!(!needs_clash_probe(&settings));

    // Clash mode always resolves: a detected URL or Disabled.
    settings.proxy_mode = ChatProxyMode::Clash;
    assert!(needs_clash_probe(&settings));
    for clash in [Some("http://127.0.0.1:7897".to_string()), None] {
        match resolve_proxy_selection(&settings, clash) {
            ProxySelection::Url(url) => assert!(url.contains("127.0.0.1")),
            ProxySelection::Disabled => {}
            ProxySelection::System => panic!("unexpected clash resolution"),
        }
    }
}

#[test]
fn api_key_saved_into_in_memory_store_is_readable_by_send_path() {
    // A key stored under the agent id must be what the send path looks up.
    let settings = default_settings();
    let mut keys = ApiKeys { keys: Vec::new() };
    let at = settings.active_agent().expect("default agent");
    keys.insert(settings.agents[at].id.clone(), "sk-test-123".to_string());
    let looked_up = keys.get(&settings.agents[settings.active_agent().unwrap()].id);
    assert_eq!(looked_up, "sk-test-123");

    let mut conversation =
        Conversation { messages: Vec::new(), status: None, in_flight: false };
    let mut palette = typed("hi");
    let request = conversation
        .send(&mut palette, Some(&settings.agents[at]), &keys, Language::En, &catalog())
        .unwrap();
    assert_eq!(request.api_key, "sk-test-123");
}

fn typed(text: &str) -> Palette {
    let mut palette =
        Palette { input: String::new(), command_mode: false, results: Vec::new(), selected: 0 };
    palette.typed(text.to_string());
    palette
}

fn commands(entries: &[ChatCommandEntry]) -> Vec<&str> {
    entries.iter().map(|entry| entry.command.as_str()).collect()
}

#[test]
fn docks_follow_each_other() {
    let right = next_dock(ChatDock::Floating);
    assert_eq!(right, ChatDock::Right);
    assert_eq!(next_dock(right), ChatDock::Bottom);
    assert_eq!(next_dock(ChatDock::Bottom), ChatDock::Floating);
}

#[test]
fn active_agent_is_the_chosen_one_or_the_first() {
    let mut settings = default_settings();
    settings.agents.push(agent("second", ChatAgentProvider::Local));
    assert_eq!(settings.active_agent(), Some(0));
    settings.active_agent_id = Some("second".to_string());
    assert_eq!(settings.active_agent(), Some(1));
    settings.active_agent_id = Some("gone".to_string());
    assert_eq!(settings.active_agent(), Some(0));
    settings.agents.clear();
    assert_eq!(settings.active_agent(), None);
    assert_eq!(find_agent(&settings.agents, "x"), None);
    let mut shown = true;
    settings.close(&mut shown);
    assert!(!shown && !settings.visible);
}

#[test]
fn keys_are_kept_per_agent() {
    let mut keys = ApiKeys { keys: Vec::new() };
    keys.insert("a".to_string(), "1".to_string());
    keys.insert("b".to_string(), "2".to_string());
    keys.insert("a".to_string(), "3".to_string());
    assert_eq!(keys.get("a"), "3");
    assert_eq!(keys.get("b"), "2");
    assert_eq!(keys.get("c"), "");
}

fn blank_draft() -> AgentDraft {
    AgentDraft {
        name: String::new(),
        model: String::new(),
        base_url: String::new(),
        system_prompt: String::new(),
        api_key: String::new(),
        provider: ChatAgentProvider::Local,
    }
}

fn preset() -> ProviderPreset {
    ProviderPreset {
        id: "p".to_string(),
        name: "Opal".to_string(),
        model: "m".to_string(),
        base_url: "https://a".to_string(),
        protocol: "anthropic".to_string(),
        open_source: false,
        requires_key: true,
        key_url: "https://keys".to_string(),
    }
}

#[test]
fn drafts_are_seeded_filled_and_saved() {
    let mut settings = default_settings();
    let mut keys = ApiKeys { keys: Vec::new() };
    let mut draft = blank_draft();
    draft.api_key = "old".to_string();
    draft.seed(Some(&settings.agents[0]));
    assert_eq!((draft.model.as_str(), draft.api_key.as_str()), ("m-1", ""));
    assert_eq!(draft.apply_preset(&preset(), Language::En, &catalog()), "applied · Opal");
    assert_eq!(draft.provider, ChatAgentProvider::Anthropic);
    let status = draft.save("default", &mut settings, &mut keys, Language::En, &catalog());
    assert_eq!(status, "saved · Opal");
    assert_eq!(settings.agents[0].model, "m");
    assert_eq!(keys.get("default"), "");
    draft.api_key = " sk ".to_string();
    let status = draft.save("default", &mut settings, &mut keys, Language::En, &catalog());
    assert_eq!(status, "saved · Opal (key saved)");
    assert_eq!(keys.get("default"), "sk");
    let status = draft.save("gone", &mut settings, &mut keys, Language::En, &catalog());
    assert_eq!(status, "saved ·  (key saved)");
}

#[test]
fn presets_say_what_they_need() {
    let mut one = preset();
    assert_eq!(preset_option(&one, Language::En, &catalog()), "Opal · closed");
    assert_eq!(preset_hint(&one, Language::En, &catalog()), "get a key at https://keys");
    one.key_url.clear();
    assert_eq!(preset_hint(&one, Language::En, &catalog()), "");
    one.requires_key = false;
    one.open_source = true;
    assert_eq!(preset_option(&one, Language::En, &catalog()), "Opal · open · 🔓");
    assert_eq!(preset_hint(&one, Language::En, &catalog()), "no key needed");
}

#[test]
fn presets_are_refreshed_only_where_allowed() {
    let mut settings = default_settings();
    assert_eq!(begin_preset_refresh(&settings, Language::En, &catalog()), None);
    settings.allow_remote_presets = true;
    assert_eq!(
        begin_preset_refresh(&settings, Language::En, &catalog()),
        Some("refreshing".to_string())
    );
    assert_eq!(preset_refresh_status(&Ok(7), Language::En, &catalog()), "refreshed (7)");
    assert_eq!(
        preset_refresh_status(&Err("offline".to_string()), Language::En, &catalog()),
        "refresh failed: offline"
    );
    assert_eq!(clash_feedback(&None, Language::En, &catalog()), "not found");
    assert_eq!(
        clash_feedback(&Some("http://x".to_string()), Language::En, &catalog()),
        "found http://x"
    );
    assert_eq!(provider_label(ChatAgentProvider::OpenAI), "OpenAI");
}

#[test]
fn palette_opens_with_a_slash_and_merges_the_history() {
    let mut palette = typed("/ TOGGLE");
    assert!(palette.command_mode);
    assert_eq!(
        commands(&palette.results),
        vec!["toggle split", "toggle zoom", "toggle comparison", "toggle chat"]
    );
    let history = vec!["toggle chat".to_string(), "ls".to_string(), "ls".to_string()];
    palette.history_found("other", &history);
    assert_eq!(palette.results.len(), 4);
    palette.history_found("toggle", &history);
    assert_eq!(palette.results.len(), 5);
    assert_eq!(palette.results[4].command, "ls");
    assert_eq!(palette.results[4].source, ChatCommandSource::History);
    assert_eq!(source_label(palette.results[4].source), "history");
    assert_eq!(builtin_commands("").len(), 6);
    assert!(builtin_commands("zzz").is_empty());
}

#[test]
fn palette_holds_fifty_commands_at_most() {
    let mut palette = typed("/");
    let history: Vec<String> = (0..80).map(|n| format!("cmd {n}")).collect();
    palette.history_found("", &history);
    assert_eq!(palette.results.len(), 50);
    assert_eq!(palette.results[49].command, "cmd 43");
}

#[test]
fn palette_keys_go_around_and_take_a_command() {
    let mut palette = typed("/toggle");
    palette.up();
    assert_eq!(palette.selected, 3);
    palette.down();
    assert_eq!(palette.selected, 0);
    assert!(matches!(palette.key(ChatKey::ArrowDown, false), ChatAction::Handled));
    assert!(matches!(palette.key(ChatKey::Tab, false), ChatAction::FocusTerminal));
    assert!(matches!(palette.key(ChatKey::Other, false), ChatAction::Nothing));
    assert!(matches!(
        palette.key(ChatKey::Enter, false),
        ChatAction::Insert(command) if command == "toggle zoom"
    ));
    assert!(!palette.command_mode && palette.input.is_empty() && palette.selected == 0);
    assert!(matches!(palette.key(ChatKey::Enter, false), ChatAction::Send));
    assert!(matches!(palette.key(ChatKey::Enter, true), ChatAction::Nothing));
    assert!(matches!(palette.send_clicked(), ChatAction::Send));
    let mut none = typed("/zzz");
    assert!(matches!(none.key(ChatKey::Enter, false), ChatAction::FocusTerminal));
    assert_eq!(none.take_selected(true), None);
}

#[test]
fn messages_are_sent_only_when_everything_is_there() {
    let keys = ApiKeys { keys: vec![("a".to_string(), "sk".to_string())] };
    let no_keys = ApiKeys { keys: Vec::new() };
    let one = agent("a", ChatAgentProvider::Anthropic);
    let mut conversation = Conversation { messages: Vec::new(), status: None, in_flight: false };
    let mut blank = typed("   ");
    assert!(conversation.send(&mut blank, Some(&one), &keys, Language::En, &catalog()).is_none());
    assert!(conversation.messages.is_empty());
    let mut palette = typed(" hello ");
    assert!(conversation.send(&mut palette, None, &keys, Language::En, &catalog()).is_none());
    assert_eq!(conversation.status.as_deref(), Some("no agent"));
    assert!(conversation
        .send(&mut palette, Some(&one), &no_keys, Language::En, &catalog())
        .is_none());
    assert_eq!(conversation.messages[0].content, "an API key is needed");
    let mut modelless = agent("a", ChatAgentProvider::Local);
    modelless.model = " ".to_string();
    assert!(conversation
        .send(&mut palette, Some(&modelless), &no_keys, Language::En, &catalog())
        .is_none());
    assert_eq!(conversation.messages[1].content, "a model is needed");
    let request = conversation
        .send(&mut palette, Some(&one), &keys, Language::En, &catalog())
        .unwrap();
    assert_eq!(request.protocol, ChatProtocol::Anthropic);
    assert_eq!(request.turns.len(), 1);
    assert!(request.turns[0].by_user && request.turns[0].content == "hello");
    assert!(conversation.in_flight && palette.input.is_empty());
    let mut second = typed("again");
    assert!(conversation.send(&mut second, Some(&one), &keys, Language::En, &catalog()).is_none());
    assert_eq!(conversation.status.as_deref(), Some("still waiting"));
    conversation.answered(Ok(" ".to_string()), Language::En, &catalog());
    assert_eq!(conversation.messages.last().unwrap().content, "(empty response)");
    assert!(!conversation.in_flight && conversation.status.is_none());
    conversation.answered(Err("500".to_string()), Language::En, &catalog());
    let last: &ChatMessage = conversation.messages.last().unwrap();
    assert_eq!((last.role, last.content.as_str()), (ChatRole::System, "failed: 500"));
    assert_eq!(bubble_style(last.role).0, "center");
    let request = conversation
        .send(&mut second, Some(&one), &keys, Language::En, &catalog())
        .unwrap();
    assert_eq!(request.turns.len(), 3);
}

#[test]
fn inserted_commands_are_escaped_for_the_page() {
    let script = insert_command_script("tab-1", "echo 'a\\b'");
    assert_eq!(script.matches("echo \\'a\\\\b\\'").count(), 2);
    assert!(script.contains("tab-1"));
}

#[test]
fn drag_reports_hold_a_position_and_a_mark() {
    let report = parse_drag_report("12.5,30|1", true).unwrap();
    assert_eq!((report.x.as_str(), report.y.as_str(), report.done), ("12.5", "30", true));
    assert!(!parse_drag_report("1,2|0", true).unwrap().done);
    assert!(parse_drag_report("1,2", true).is_none());
    assert!(parse_drag_report("12|1", true).is_none());
    assert!(parse_drag_report("left,2|1", false).is_none());
    assert_eq!(reported_position("left,2|1"), Some(("left".to_string(), "2".to_string())));
    assert_eq!(reported_position("1,2"), None);
}

#[test]
fn commands_go_to_the_focused_session_first() {
    let focused = Some("pane".to_string());
    let active = Some("tab".to_string());
    assert_eq!(command_session(focused.clone(), active.clone()), focused);
    assert_eq!(command_session(None, active.clone()), active);
    assert_eq!(command_session(None, None), None);
}

#[test]
fn blank_queries_search_the_whole_history() {
    assert_eq!(history_prefix("  \t"), "");
    assert_eq!(history_prefix(""), "");
    assert_eq!(history_prefix(" git "), " git ");
}
