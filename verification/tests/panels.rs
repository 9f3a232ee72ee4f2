//! The history, send, relay and right panels.

use rusterm_panels::api_panel::RelaySwitch;
use rusterm_panels::history_panel::{
    duration_label, filter_entries, format_relative_time, html_escape, relative_label,
    relative_time_at, row_html, rows_html, rows_now, HistoryAction, HistoryKey, HistoryPanelEntry,
    HistorySearch,
};
use rusterm_panels::i18n::{Catalog, Language, Message};
use rusterm_panels::model::RelayAccount;
use rusterm_panels::relay_panel::{
    commands_text, hosts_text, indices_text, split_csv, warns_of_public_bind, RelayAccountForm,
};
use rusterm_panels::right_tool_panel::{
    connection_status, field_or_dash, format_history_time, history_query, history_time_at,
    session_count, session_filter_label, HistoryFooter, HistoryList, HistoryNotice, HistoryPage,
    SessionConnectionState, TreePane, TreeSession, TreeWorkspace,
};
use rusterm_panels::send_panel::{
    history_completions, needs_rankings, ranked_completions, source_limit, SendInput, SendKey,
};

fn entry(command: &str, cwd: Option<&str>) -> HistoryPanelEntry {
    HistoryPanelEntry {
        command: command.to_string(),
        cwd: cwd.map(str::to_string),
        duration_ms: None,
        timestamp: None,
    }
}

fn names(list: &[HistoryPanelEntry]) -> Vec<&str> {
    list.iter().map(|e| e.command.as_str()).collect()
}

#[test]
fn history_is_filtered_by_command_and_directory() {
    let all = || {
        vec![entry("GIT status", None), entry("ls", Some("/srv/Git")), entry("pwd", Some("/tmp"))]
    };
    assert_eq!(names(&filter_entries(all(), "git")), vec!["GIT status", "ls"]);
    assert_eq!(names(&filter_entries(all(), "Git S")), vec!["GIT status"]);
    assert_eq!(filter_entries(all(), "").len(), 3);
    assert_eq!(filter_entries(all(), " git").len(), 0);
    assert_eq!(names(&filter_entries(vec![entry("ÉCHO", None)], "éch")), vec!["ÉCHO"]);
}

#[test]
fn history_keys_move_without_going_around() {
    let mut search = HistorySearch { query: String::new(), selected: 9 };
    let shown = search.shown(vec![entry("a", None), entry("b", None)]);
    assert_eq!(search.selected, 1);
    search.key(&shown, HistoryKey::ArrowDown);
    assert_eq!(search.selected, 1);
    search.key(&shown, HistoryKey::ArrowUp);
    search.key(&shown, HistoryKey::ArrowUp);
    assert_eq!(search.selected, 0);
    assert!(matches!(
        search.key(&shown, HistoryKey::Enter),
        HistoryAction::Accept(command) if command == "a"
    ));
    assert!(matches!(search.key(&shown, HistoryKey::Escape), HistoryAction::Close));
    assert!(matches!(search.key(&shown, HistoryKey::CtrlR), HistoryAction::Close));
    search.selected = 1;
    search.typed("zz".to_string());
    assert_eq!(search.selected, 0);
    let none = search.shown(shown);
    assert!(matches!(search.key(&none, HistoryKey::Enter), HistoryAction::Nothing));
}

#[test]
fn times_are_told_in_the_largest_unit() {
    for (seconds, label) in [
        (-5, "just now"),
        (59, "just now"),
        (60, "1m ago"),
        (3599, "59m ago"),
        (3600, "1h ago"),
        (86399, "23h ago"),
        (86400, "1d ago"),
        (30 * 86400 - 1, "29d ago"),
        (30 * 86400, "1mo ago"),
        (364 * 86400, "12mo ago"),
        (365 * 86400, "1y ago"),
        (800 * 86400, "2y ago"),
    ] {
        assert_eq!(relative_label(seconds), label);
    }
}

#[test]
fn timestamps_are_read_with_their_offset() {
    let noon = (1704110400, 0);
    assert_eq!(relative_time_at(Some("2024-01-01T11:00:00Z"), noon), "1h ago");
    assert_eq!(relative_time_at(Some("2024-01-01T12:00:00+02:00"), noon), "2h ago");
    assert_eq!(relative_time_at(Some("2024-01-01T11:59:00.5Z"), noon), "just now");
    assert_eq!(relative_time_at(Some("2024-01-01T11:59:00.000000001Z"), noon), "just now");
    assert_eq!(relative_time_at(Some("2024-01-01T11:59:00Z"), noon), "1m ago");
    assert_eq!(relative_time_at(Some("2024-06-01T00:00:00Z"), noon), "just now");
    assert_eq!(relative_time_at(Some("yesterday"), noon), "-");
    assert_eq!(relative_time_at(None, noon), "-");
    assert_eq!(relative_time_at(Some("2024-01-01T11:00:00Z"), (i64::MAX, 0)), "-");
    assert_eq!(format_relative_time(Some("nonsense")), "-");
    assert!(format_relative_time(Some("2001-01-01T00:00:00Z")).ends_with("y ago"));
    assert!(format_relative_time(Some("2016-12-31T23:59:60Z")).ends_with("y ago"));
}

#[test]
fn rows_escape_what_was_typed() {
    assert_eq!(html_escape("<a href='x'>\"&\""), "&lt;a href=&#39;x&#39;&gt;&quot;&amp;&quot;");
    let mut one = entry("echo <b>", Some("/a&b"));
    one.duration_ms = Some(1500);
    let row = row_html(&one, true, "1h ago");
    assert_eq!(
        row,
        "<div style=\"display:flex;align-items:center;gap:12px;padding:4px 12px;border-left:2px solid #7aa2f7;background:#283457;cursor:pointer;\"><span style=\"color:#e0af68;min-width:60px;text-align:right;font-size:12px;\">1s</span><span style=\"color:#7aa2f7;min-width:70px;font-size:12px;\">1h ago</span><span style=\"color:#c0caf5;flex:1;overflow:hidden;text-overflow:ellipsis;white-space:pre;\">echo &lt;b&gt;</span><span style=\"color:#565f89;font-size:11px;max-width:200px;overflow:hidden;text-overflow:ellipsis;white-space:pre;\">/a&amp;b</span></div>"
    );
    let rows = rows_html(&vec![entry("a", None), entry("b", None)], 1, (0, 0));
    assert_eq!(rows.matches("background:#283457").count(), 1);
    assert_eq!(rows.matches("<div").count(), 2);
    assert_eq!(rows, rows_now(&vec![entry("a", None), entry("b", None)], 1));
}

#[test]
fn durations_are_coloured() {
    assert_eq!(duration_label(Some(999)), ("999ms".to_string(), "#9ece6a"));
    assert_eq!(duration_label(Some(9999)), ("9s".to_string(), "#e0af68"));
    assert_eq!(duration_label(Some(10000)), ("10s".to_string(), "#f7768e"));
    assert_eq!(duration_label(None), ("-".to_string(), "#565f89"));
}

fn list(texts: &[&str]) -> Vec<String> {
    texts.iter().map(|t| t.to_string()).collect()
}

#[test]
fn completions_blend_both_sources() {
    let failed = list(&["git rebase"]);
    let history = list(&["git", "GIT Status", "git status", "ls", "git rebase", "git log"]);
    let found = history_completions("git", &failed, &history);
    assert_eq!(found, list(&["GIT Status", "git log"]));
    assert!(needs_rankings(&found, 3));
    assert!(!needs_rankings(&found, 2));
    let rankings = list(&["GIT LOG", "git push", "git pull"]);
    assert_eq!(
        ranked_completions(found.clone(), "git", &failed, &rankings, 3),
        list(&["GIT Status", "git log", "git push"])
    );
    assert_eq!(
        ranked_completions(found, "git", &failed, &rankings, 0),
        list(&["GIT Status"])
    );
    assert_eq!((source_limit(0), source_limit(5)), (2, 10));
}

#[test]
fn completions_are_fetched_for_the_last_text_only() {
    let mut input = SendInput::new();
    let first = input.typed(" gi".to_string()).unwrap();
    let second = input.typed("git ".to_string()).unwrap();
    assert_eq!(second.prefix, "git");
    assert!(!input.is_current(first.epoch) && input.is_current(second.epoch));
    input.fetched(first.epoch, list(&["gimp"]));
    assert!(input.suggestions.is_empty());
    input.fetched(second.epoch, list(&["git log", "git push"]));
    assert!(input.popup_open());
    assert!(input.typed("  ".to_string()).is_none());
    assert!(!input.popup_open());
}

#[test]
fn completion_keys_go_around() {
    let mut input = SendInput::new();
    let request = input.typed("git".to_string()).unwrap();
    assert!(!input.key(SendKey::Tab, true).handled);
    input.fetched(request.epoch, list(&["git log", "git push", "git pull"]));
    assert!(input.key(SendKey::ArrowUp, true).handled);
    assert_eq!(input.current(), 2);
    input.key(SendKey::ArrowDown, true);
    assert_eq!(input.current(), 0);
    input.key(SendKey::ArrowDown, true);
    assert!(!input.key(SendKey::Other, true).handled);
    assert!(input.key(SendKey::Tab, true).handled);
    assert_eq!(input.command, "git push");
    assert!(!input.popup_open() && !input.is_current(request.epoch));
    let request = input.typed("git".to_string()).unwrap();
    input.fetched(request.epoch, list(&["git log"]));
    input.key(SendKey::Escape, true);
    assert!(!input.popup_open());
    assert_eq!(input.command, "git");
    input.accept("git log".to_string());
    assert_eq!(input.command, "git log");
}

#[test]
fn commands_are_sent_trimmed_to_some_session() {
    let mut input = SendInput::new();
    input.typed(" uptime \n".to_string());
    assert!(!input.can_send(false));
    assert_eq!(input.key(SendKey::Run, false).sent, None);
    assert_eq!(input.key(SendKey::Run, true).sent.as_deref(), Some("uptime"));
    assert!(input.command.is_empty());
    assert_eq!(input.send(true), None);
}

fn catalog() -> Catalog {
    let message = |key: &str, text: &str| Message {
        key: key.to_string(),
        zh: text.to_string(),
        en: text.to_string(),
    };
    Catalog {
        messages: vec![
            message("relay.invalid_bind_addr", "bad address {value}"),
            message("api.invalid_port", "bad port {value}"),
            message("relay.all_commands_validated", "all commands"),
            message("relay.hashing_failed", "hashing: {error}"),
            message("relay.invalid_regex_indices", "invalid: {indices}"),
        ],
    }
}

#[test]
fn csv_entries_are_trimmed() {
    assert_eq!(split_csv(" a, ,b c ,,"), list(&["a", "b c"]));
    assert!(split_csv(" , ").is_empty());
    assert_eq!(indices_text(&vec![0, 2, 11]), "[0, 2, 11]");
    assert_eq!(indices_text(&Vec::new()), "[]");
}

fn account(name: &str) -> RelayAccount {
    RelayAccount {
        username: name.to_string(),
        password_hash: "old".to_string(),
        allowed_hosts: Vec::new(),
        allowed_commands: Vec::new(),
        readonly: false,
    }
}

#[test]
fn relay_starts_only_confirmed_and_with_an_account() {
    let mut relay = RelaySwitch { running: false, started_url: None, status: String::new() };
    let accounts = vec![account("ops")];
    assert!(!relay.may_start(true, false, &accounts));
    assert_eq!(relay.status, "relay.confirm_public_bind_before_start");
    assert!(!relay.may_start(false, false, &Vec::new()));
    assert_eq!(relay.status, "relay.account_required_before_start");
    assert!(relay.may_start(true, true, &accounts));
    assert!(warns_of_public_bind(true, false) && !warns_of_public_bind(true, true));
    relay.started(Ok(Some("http://x".to_string())));
    relay.stop_anyway(Err("disk full".to_string()));
    assert!(!relay.running);
    assert_eq!(relay.status, "disk full");
    relay.config_saved(Ok(()));
    assert_eq!(relay.status, "api.saved");
    relay.bind_addr_typed("1.2.3.", false, Language::En, &catalog());
    assert_eq!(relay.status, "bad address 1.2.3.");
    relay.bind_addr_typed("1.2.3.4", true, Language::En, &catalog());
    assert_eq!(relay.status, "bad address 1.2.3.");
    let mut port = 80u16;
    relay.relay_port_typed(&mut port, "65536", Language::En, &catalog());
    assert_eq!((port, relay.status.as_str()), (80, "bad port 65536"));
    relay.relay_port_typed(&mut port, "65535", Language::En, &catalog());
    assert_eq!((port, relay.status.as_str()), (65535, ""));
}

#[test]
fn relay_accounts_are_replaced_by_name() {
    let mut accounts = vec![account("ops"), account("dev")];
    let mut form = RelayAccountForm {
        username: "  ".to_string(),
        password: String::new(),
        allowed_hosts: "web-1, web-2".to_string(),
        allowed_commands: "^ls".to_string(),
        readonly: true,
        error: String::new(),
    };
    assert_eq!(form.begin(), None);
    assert_eq!(form.error, "relay.username_required");
    form.username = " ops ".to_string();
    assert_eq!(form.begin(), None);
    assert_eq!(form.error, "relay.password_required");
    form.password = "pw".to_string();
    let name = form.begin().unwrap();
    assert_eq!(form.command_patterns(), list(&["^ls"]));
    let en = Language::En;
    assert!(!form.apply(
        &mut accounts,
        name.clone(),
        Err("no salt".to_string()),
        Ok(()),
        en,
        &catalog()
    ));
    assert_eq!(form.error, "hashing: no salt");
    assert!(!form.apply(
        &mut accounts,
        name.clone(),
        Ok("h".to_string()),
        Err(vec![0, 2]),
        en,
        &catalog()
    ));
    assert_eq!(form.error, "invalid: [0, 2]");
    assert!(form.apply(&mut accounts, name, Ok("h".to_string()), Ok(()), en, &catalog()));
    let names: Vec<&str> = accounts.iter().map(|a| a.username.as_str()).collect();
    assert_eq!(names, vec!["dev", "ops"]);
    assert_eq!(hosts_text(&accounts[1]), "web-1, web-2");
    assert_eq!(hosts_text(&accounts[0]), "*");
    assert_eq!(commands_text(&accounts[1], en, &catalog()), "^ls");
    assert_eq!(commands_text(&accounts[0], en, &catalog()), "all commands");
    form.stored(Err("disk full".to_string()));
    assert_eq!((form.error.as_str(), form.password.as_str()), ("disk full", "pw"));
    form.stored(Ok(()));
    assert!(form.username.is_empty() && form.error.is_empty() && form.readonly);
}

#[test]
fn history_pages_belong_to_the_last_request() {
    let query = history_query(" ls ", false, None, None);
    assert_eq!(query.contains_filter(), Some("ls"));
    let mut list: HistoryList<u32, u8> = HistoryList::new();
    assert_eq!(list.notice(), HistoryNotice::NoMatch);
    let first = list.begin(&query, false).unwrap();
    assert_eq!(list.notice(), HistoryNotice::Loading);
    let second = list.begin(&query, false).unwrap();
    list.finish(first, false, Err("late".to_string()));
    assert!(list.loading);
    list.finish(second, false, Ok(HistoryPage { entries: vec![1, 2], next_cursor: Some(7) }));
    assert_eq!(list.footer(), HistoryFooter::LoadMore);
    assert!(list.can_load_more());
    let third = list.begin(&query, true).unwrap();
    assert_eq!(list.footer(), HistoryFooter::LoadingMore);
    assert!(!list.can_load_more());
    list.finish(third, true, Ok(HistoryPage { entries: vec![3], next_cursor: None }));
    assert_eq!(list.entries, vec![1, 2, 3]);
    assert_eq!(list.footer(), HistoryFooter::Nothing);
    let fourth = list.begin(&query, true).unwrap();
    list.finish(fourth, true, Err("locked".to_string()));
    assert_eq!(list.error.as_deref(), Some("Unable to load command history: locked"));
    assert_eq!(list.entries.len(), 3);
    list.epoch = u64::MAX;
    assert_eq!(list.begin(&query, true), Some(0));
}

#[test]
fn history_of_no_session_is_refused() {
    let some = |id: &str| Some(id.to_string());
    let query = history_query("", true, None, None);
    assert_eq!(query.contains_filter(), None);
    let mut list: HistoryList<u32, u8> = HistoryList::new();
    assert_eq!(list.begin(&query, false), None);
    assert_eq!(
        list.error.as_deref(),
        Some("No focused or active session is available for this filter.")
    );
    assert_eq!(history_query("", true, some("f"), some("a")).session_id, some("f"));
    assert_eq!(history_query("", true, None, some("a")).session_id, some("a"));
    assert_eq!(history_query("", false, some("f"), some("a")).session_id, None);
    assert_eq!(
        session_filter_label(Some("web")),
        "Current focused/active session only · web"
    );
    assert_eq!(session_filter_label(None), "Current focused/active session only");
}

#[test]
fn history_times_are_shown_in_a_time_zone() {
    let stored = "2024-01-01T12:00:00Z";
    assert_eq!(history_time_at(stored, Some(0)), "2024-01-01 12:00:00");
    assert_eq!(history_time_at(stored, Some(8 * 3600)), "2024-01-01 20:00:00");
    assert_eq!(history_time_at("2024-01-01T01:30:00.25+02:00", Some(0)), "2023-12-31 23:30:00");
    assert_eq!(history_time_at("2016-12-31T23:59:60Z", Some(0)), "2016-12-31 23:59:60");
    assert_eq!(history_time_at(stored, Some(86400)), stored);
    assert_eq!(history_time_at(stored, None), stored);
    assert_eq!(history_time_at(stored, Some(90000)), stored);
    assert_eq!(history_time_at("soon", Some(0)), "soon");
    assert_eq!(format_history_time("soon"), "soon");
    let local = format_history_time(stored);
    assert_eq!(local.len(), 19);
    assert_ne!(local, stored);
    assert_eq!(field_or_dash(None), "—");
    assert_eq!(field_or_dash(Some("/srv")), "/srv");
}

#[test]
fn workspaces_are_labelled_by_their_anchor() {
    let pane = |index: usize, id: Option<&str>| TreePane {
        index,
        is_focused: false,
        session: id.map(|id| TreeSession {
            id: id.to_string(),
            name: format!("name of {id}"),
            kind: "Ssh".to_string(),
            connection_state: SessionConnectionState::Connected,
            is_active: false,
        }),
    };
    let mut workspace = TreeWorkspace {
        tab_id: "tab".to_string(),
        anchor_session_id: Some("b".to_string()),
        is_active: true,
        panes: vec![pane(0, Some("a")), pane(1, None), pane(2, Some("b"))],
    };
    assert_eq!(workspace.workspace_label(), "name of b");
    workspace.anchor_session_id = Some("gone".to_string());
    assert_eq!(workspace.workspace_label(), "tab");
    workspace.anchor_session_id = None;
    assert_eq!(workspace.workspace_label(), "tab");
    assert_eq!(session_count(&vec![workspace]), 2);
    assert_eq!(
        connection_status(SessionConnectionState::Reconnecting),
        ("◌", "Reconnecting", "var(--skin-warning)")
    );
}

#[test]
fn clearing_the_input_drops_what_was_asked_for() {
    let mut input = SendInput::new();
    let request = input.typed("git".to_string()).unwrap();
    assert!(input.typed(" \n".to_string()).is_none());
    assert_eq!(input.epoch, request.epoch + 1);
    assert!(!input.is_current(request.epoch));
    input.fetched(request.epoch, list(&["git log"]));
    assert!(input.suggestions.is_empty() && !input.popup_open());
}
