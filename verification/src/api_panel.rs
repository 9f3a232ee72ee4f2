//! The API panel: which sessions a script targets, the templates, the relay's switch and its
//! accounts.

use vstd::prelude::*;

use crate::curl::{trim_slashes, without_slashes, CurlPayload};
use crate::i18n::{Catalog, Language};
use crate::json::{json_string, json_string_text};
use crate::model::{
    account_exists, accounts_view, config_of, has_account, lemma_tab_found, tab_of, AccountText,
    AppState, ConnectionConfig, ConnectionKind, RelayAccount, SessionTab, SessionType,
};
use crate::number::{decimal, decimal_text, parse_unsigned, parsed};
use crate::search::{contains_text, holds_text};
use crate::text::{
    chars_of, is_listed, is_other, lemma_filter_none, lemma_filter_step, lemma_filter_unique,
    lemma_texts_push,
    list_contains, opt_text, retain_listed, retain_other, same, same_texts, slice_of, texts, trim,
    trimmed,
};

verus! {

/// Which payload the script builder emits.
#[derive(Clone, Copy, PartialEq, Eq, Structural, Debug)]
pub enum CurlMode {
    Command,
    Script,
    ScriptBase64,
}

/// The mode under which a user's template is stored.
#[derive(Clone, Copy, PartialEq, Eq, Structural, Debug)]
pub enum ApiTemplateMode {
    Command,
    Script,
    ScriptBase64,
}

/// A template of the user's own.
#[derive(Clone, Debug, PartialEq)]
pub struct CustomApiTemplate {
    pub label: String,
    pub mode: ApiTemplateMode,
    pub body: String,
}

/// A built-in template: a starting point that the user edits.
#[derive(Clone, Debug, PartialEq)]
pub struct PresetTemplate {
    pub label: &'static str,
    pub mode: CurlMode,
    pub body: &'static str,
}

/// The stored mode of a panel mode.
pub open spec fn stored_mode(mode: CurlMode) -> ApiTemplateMode {
    match mode {
        CurlMode::Command => ApiTemplateMode::Command,
        CurlMode::Script => ApiTemplateMode::Script,
        CurlMode::ScriptBase64 => ApiTemplateMode::ScriptBase64,
    }
}

/// The mode under which a template of the panel's mode is stored.
pub fn template_mode_of(mode: CurlMode) -> (r: ApiTemplateMode)
    ensures
        r == stored_mode(mode),
{
    match mode {
        CurlMode::Command => ApiTemplateMode::Command,
        CurlMode::Script => ApiTemplateMode::Script,
        CurlMode::ScriptBase64 => ApiTemplateMode::ScriptBase64,
    }
}

/// A template saved in one mode never shows up in another.
pub proof fn law_template_modes_distinct(a: CurlMode, b: CurlMode)
    ensures
        stored_mode(a) == stored_mode(b) <==> a == b,
{
}

// ---------------------------------------------------------------------------------------------
// Inputs
// ---------------------------------------------------------------------------------------------

/// The builder's inputs: one text for each mode.
#[derive(Clone, Debug, PartialEq)]
pub struct CurlInputs {
    pub mode: CurlMode,
    pub command: String,
    pub script: String,
    pub script_base64: String,
    pub elevated: bool,
}

impl CurlInputs {
    /// The text of a mode's input.
    pub open spec fn input(&self, mode: CurlMode) -> Seq<char> {
        match mode {
            CurlMode::Command => self.command@,
            CurlMode::Script => self.script@,
            CurlMode::ScriptBase64 => self.script_base64@,
        }
    }

    /// The inputs of a panel that was just opened.
    pub fn opened() -> (r: CurlInputs)
        ensures
            r.mode == CurlMode::Command,
            r.command@ == "uname -a"@,
            r.script@ == Seq::<char>::empty(),
            r.script_base64@ == Seq::<char>::empty(),
            r.elevated,
    {
        CurlInputs {
            mode: CurlMode::Command,
            command: "uname -a".to_owned(),
            script: String::new(),
            script_base64: String::new(),
            elevated: true,
        }
    }

    /// Puts a template's text into the input of a mode; the other inputs stay.
    pub fn load(&mut self, mode: CurlMode, body: &str)
        ensures
            final(self).mode == old(self).mode,
            final(self).elevated == old(self).elevated,
            final(self).input(mode) == body@,
            final(self).command@ == (if mode == CurlMode::Command {
                body@
            } else {
                old(self).command@
            }),
            final(self).script@ == (if mode == CurlMode::Script {
                body@
            } else {
                old(self).script@
            }),
            final(self).script_base64@ == (if mode == CurlMode::ScriptBase64 {
                body@
            } else {
                old(self).script_base64@
            }),
            forall|other: CurlMode|
                other != mode ==> #[trigger] final(self).input(other) == old(self).input(other),
    {
        match mode {
            CurlMode::Command => {
                self.command = body.to_owned();
            },
            CurlMode::Script => {
                self.script = body.to_owned();
            },
            CurlMode::ScriptBase64 => {
                self.script_base64 = body.to_owned();
            },
        }
    }

    /// What the script sends: the text of the current mode's input, in this mode's field.
    pub fn payload(&self) -> (r: CurlPayload)
        ensures
            match r {
                CurlPayload::Command(text) => self.mode == CurlMode::Command && text@ == self.input(
                    self.mode,
                ),
                CurlPayload::Script(text) => self.mode == CurlMode::Script && text@ == self.input(
                    self.mode,
                ),
                CurlPayload::ScriptBase64(text) => self.mode == CurlMode::ScriptBase64 && text@
                    == self.input(self.mode),
            },
            r matches CurlPayload::Command(text) ==> text@ == self.command@,
            r matches CurlPayload::Script(text) ==> text@ == self.script@,
            r matches CurlPayload::ScriptBase64(text) ==> text@ == self.script_base64@,
    {
        match self.mode {
            CurlMode::Command => CurlPayload::Command(self.command.clone()),
            CurlMode::Script => CurlPayload::Script(self.script.clone()),
            CurlMode::ScriptBase64 => CurlPayload::ScriptBase64(self.script_base64.clone()),
        }
    }
}

/// The page script that copies a text to the clipboard.
pub fn clipboard_script(text: &str) -> (r: String)
    ensures
        r@ == "navigator.clipboard.writeText("@ + json_string(text@) + ")"@,
{
    let mut out = String::from_str("navigator.clipboard.writeText(");
    out.append(json_string_text(text).as_str());
    out.append(")");
    out
}

// ---------------------------------------------------------------------------------------------
// Templates
// ---------------------------------------------------------------------------------------------

/// The longest label that is taken over from a command.
pub const TEMPLATE_LABEL_MAX_CHARS: usize = 30;

/// The label that a command gives: itself, cut after a number of characters with an ellipsis.
pub open spec fn label_of(command: Seq<char>) -> Seq<char> {
    if command.len() > TEMPLATE_LABEL_MAX_CHARS {
        command.take(TEMPLATE_LABEL_MAX_CHARS as int).push('\u{2026}')
    } else {
        command
    }
}

/// The label and the text with which the form for a new template opens: the trimmed input, and
/// as a label the command itself; a script makes no label.
pub fn template_form_prefill(
    mode: CurlMode,
    command: &str,
    script: &str,
    script_base64: &str,
) -> (r: (String, String))
    ensures
        r.1@ == trimmed(
            match mode {
                CurlMode::Command => command@,
                CurlMode::Script => script@,
                CurlMode::ScriptBase64 => script_base64@,
            },
        ),
        r.0@ == (if mode == CurlMode::Command {
            label_of(r.1@)
        } else {
            Seq::empty()
        }),
{
    let body: String = match mode {
        CurlMode::Command => trim(command),
        CurlMode::Script => trim(script),
        CurlMode::ScriptBase64 => trim(script_base64),
    };
    let label: String = match mode {
        CurlMode::Command => {
            let v = chars_of(body.as_str());
            if v.len() > TEMPLATE_LABEL_MAX_CHARS {
                let mut label = slice_of(&v, 0, TEMPLATE_LABEL_MAX_CHARS);
                label.push('\u{2026}');
                assert(v@.subrange(0, TEMPLATE_LABEL_MAX_CHARS as int) == v@.take(
                    TEMPLATE_LABEL_MAX_CHARS as int,
                ));
                label
            } else {
                body.clone()
            }
        },
        _ => String::new(),
    };
    (label, body)
}

/// The built-in templates.
pub open spec fn preset_table() -> Seq<PresetTemplate> {
    seq![
        PresetTemplate { label: "uname -a", mode: CurlMode::Command, body: "uname -a" },
        PresetTemplate { label: "uptime", mode: CurlMode::Command, body: "uptime" },
        PresetTemplate { label: "df -h", mode: CurlMode::Command, body: "df -h" },
        PresetTemplate { label: "free -h", mode: CurlMode::Command, body: "free -h" },
        PresetTemplate { label: "hostname", mode: CurlMode::Command, body: "hostname" },
        PresetTemplate { label: "nvidia-smi", mode: CurlMode::Command, body: "nvidia-smi" },
        PresetTemplate { label: "docker ps", mode: CurlMode::Command, body: "docker ps" },
        PresetTemplate {
            label: "kubectl get pods",
            mode: CurlMode::Command,
            body: "kubectl get pods",
        },
        PresetTemplate {
            label: "health check",
            mode: CurlMode::Script,
            body: "#!/bin/sh\nset -e\nhostname\nuptime\nfree -h\ndf -h",
        },
        PresetTemplate {
            label: "top disk usage",
            mode: CurlMode::Script,
            body: "#!/bin/sh\ndu -sh /var/log/* 2>/dev/null | sort -rh | head -20",
        },
    ]
}

/// The built-in templates.
pub fn preset_templates() -> (r: Vec<PresetTemplate>)
    ensures
        r@ == preset_table(),
{
    let all: Vec<PresetTemplate> = vec![
        PresetTemplate { label: "uname -a", mode: CurlMode::Command, body: "uname -a" },
        PresetTemplate { label: "uptime", mode: CurlMode::Command, body: "uptime" },
        PresetTemplate { label: "df -h", mode: CurlMode::Command, body: "df -h" },
        PresetTemplate { label: "free -h", mode: CurlMode::Command, body: "free -h" },
        PresetTemplate { label: "hostname", mode: CurlMode::Command, body: "hostname" },
        PresetTemplate { label: "nvidia-smi", mode: CurlMode::Command, body: "nvidia-smi" },
        PresetTemplate { label: "docker ps", mode: CurlMode::Command, body: "docker ps" },
        PresetTemplate {
            label: "kubectl get pods",
            mode: CurlMode::Command,
            body: "kubectl get pods",
        },
        PresetTemplate {
            label: "health check",
            mode: CurlMode::Script,
            body: "#!/bin/sh\nset -e\nhostname\nuptime\nfree -h\ndf -h",
        },
        PresetTemplate {
            label: "top disk usage",
            mode: CurlMode::Script,
            body: "#!/bin/sh\ndu -sh /var/log/* 2>/dev/null | sort -rh | head -20",
        },
    ];
    all
}

/// The positions, in order, of the templates of a list that belong to a mode.
pub open spec fn preset_positions(list: Seq<PresetTemplate>, mode: CurlMode) -> Seq<usize>
    decreases list.len(),
{
    if list.len() == 0 {
        Seq::empty()
    } else {
        let before = preset_positions(list.drop_last(), mode);
        if list.last().mode == mode {
            before.push((list.len() - 1) as usize)
        } else {
            before
        }
    }
}

/// Lists the built-in templates that belong to a mode, by position.
pub fn presets_for(mode: CurlMode) -> (r: Vec<usize>)
    ensures
        r@ == preset_positions(preset_table(), mode),
{
    let list = preset_templates();
    let mut out: Vec<usize> = Vec::new();
    for i in 0..list.len()
        invariant
            out@ == preset_positions(list@.take(i as int), mode),
    {
        assert(list@.take(i + 1).drop_last() == list@.take(i as int));
        if list[i].mode == mode {
            out.push(i);
        }
    }
    assert(list@.take(list@.len() as int) == list@);
    out
}

/// The positions, in order, of the user's templates that belong to a mode.
pub open spec fn template_positions(list: Seq<CustomApiTemplate>, mode: CurlMode) -> Seq<usize>
    decreases list.len(),
{
    if list.len() == 0 {
        Seq::empty()
    } else {
        let before = template_positions(list.drop_last(), mode);
        if list.last().mode == stored_mode(mode) {
            before.push((list.len() - 1) as usize)
        } else {
            before
        }
    }
}

/// Lists the user's templates that belong to a mode, by position.
pub fn templates_for(list: &Vec<CustomApiTemplate>, mode: CurlMode) -> (r: Vec<usize>)
    ensures
        r@ == template_positions(list@, mode),
{
    let mut out: Vec<usize> = Vec::new();
    let wanted = template_mode_of(mode);
    for i in 0..list.len()
        invariant
            wanted == stored_mode(mode),
            out@ == template_positions(list@.take(i as int), mode),
    {
        assert(list@.take(i + 1).drop_last() == list@.take(i as int));
        if list[i].mode == wanted {
            out.push(i);
        }
    }
    assert(list@.take(list@.len() as int) == list@);
    out
}

/// Deletes a template; a position that the list does not have changes nothing.
pub fn delete_template(list: &mut Vec<CustomApiTemplate>, position: usize)
    ensures
        final(list)@ == (if position < old(list)@.len() {
            old(list)@.remove(position as int)
        } else {
            old(list)@
        }),
{
    if position < list.len() {
        let _removed = list.remove(position);
    }
}

/// The form for a new template.
#[derive(Clone, Debug, PartialEq)]
pub struct TemplateForm {
    pub adding: bool,
    pub label: String,
    pub body: String,
    pub error: String,
}

impl TemplateForm {
    /// Opens or closes the form. An opened form without a text is filled from the inputs, its
    /// label only where the user has typed none; a closed one forgets its error.
    pub fn toggle(&mut self, inputs: &CurlInputs)
        ensures
            final(self).adding == !old(self).adding,
            old(self).adding ==> final(self).label == old(self).label && final(self).body == old(self).body && final(self).error@ == Seq::<char>::empty(),
            !old(self).adding ==> {
                let fills = trimmed(old(self).body@).len() == 0;
                let body = trimmed(inputs.input(inputs.mode));
                let label = if inputs.mode == CurlMode::Command {
                    label_of(body)
                } else {
                    Seq::empty()
                };
                &&& final(self).error == old(self).error
                &&& final(self).body@ == (if fills {
                    body
                } else {
                    old(self).body@
                })
                &&& final(self).label@ == (if fills && trimmed(old(self).label@).len() == 0 {
                    label
                } else {
                    old(self).label@
                })
            },
    {
        self.adding = !self.adding;
        if self.adding {
            if trim(self.body.as_str()).as_str().is_empty() {
                let prefill = template_form_prefill(
                    inputs.mode,
                    inputs.command.as_str(),
                    inputs.script.as_str(),
                    inputs.script_base64.as_str(),
                );
                if trim(self.label.as_str()).as_str().is_empty() {
                    self.label = prefill.0;
                }
                self.body = prefill.1;
            }
        } else {
            self.error = String::new();
        }
    }

    /// Closes the form without saving.
    pub fn cancel(&mut self)
        ensures
            !final(self).adding,
            final(self).label == old(self).label,
            final(self).body == old(self).body,
            final(self).error@ == Seq::<char>::empty(),
    {
        self.adding = false;
        self.error = String::new();
    }

    /// Saves the form as a template of the current mode. A form without a label or a text is
    /// refused and stays open; `true` means that the list has changed and is to be stored.
    pub fn save(
        &mut self,
        list: &mut Vec<CustomApiTemplate>,
        mode: CurlMode,
        language: Language,
        catalog: &Catalog,
    ) -> (r: bool)
        ensures
            r == (trimmed(old(self).label@).len() > 0 && trimmed(old(self).body@).len() > 0),
            r ==> {
                &&& final(list)@.len() == old(list)@.len() + 1
                &&& final(list)@.drop_last() == old(list)@
                &&& final(list)@.last().label@ == trimmed(old(self).label@)
                &&& final(list)@.last().body@ == trimmed(old(self).body@)
                &&& final(list)@.last().mode == stored_mode(mode)
                &&& !final(self).adding
                &&& final(self).label@ == Seq::<char>::empty()
                &&& final(self).body@ == Seq::<char>::empty()
                &&& final(self).error@ == Seq::<char>::empty()
            },
            !r ==> {
                &&& final(list)@ == old(list)@
                &&& final(self).adding == old(self).adding
                &&& final(self).label == old(self).label
                &&& final(self).body == old(self).body
                &&& final(self).error@ == catalog.text(language, "api.template_fill_required"@)
            },
    {
        let label = trim(self.label.as_str());
        let body = trim(self.body.as_str());
        if label.as_str().is_empty() || body.as_str().is_empty() {
            self.error = catalog.t_for(language, "api.template_fill_required");
            return false;
        }
        let ghost before = list@;
        list.push(CustomApiTemplate { label, mode: template_mode_of(mode), body });
        assert(list@.drop_last() == before);
        self.label = String::new();
        self.body = String::new();
        self.error = String::new();
        self.adding = false;
        true
    }
}

// ---------------------------------------------------------------------------------------------
// Sessions
// ---------------------------------------------------------------------------------------------

/// The address under which the relay is reached: that of the running relay, else the configured
/// one; an address that stands for every interface is shown as the local one.
pub fn base_url(running_url: &Option<String>, bind_addr: &str, port: u16) -> (r: String)
    ensures
        r@ == match running_url {
            Some(url) => without_slashes(url@),
            None => "http://"@ + (if bind_addr@ == "0.0.0.0"@ || bind_addr@ == "::"@ {
                "127.0.0.1"@
            } else {
                bind_addr@
            }) + ":"@ + decimal(port as nat),
        },
{
    match running_url {
        Some(url) => trim_slashes(url.as_str()),
        None => {
            let mut out = String::from_str("http://");
            if same(bind_addr, "0.0.0.0") || same(bind_addr, "::") {
                out.append("127.0.0.1");
            } else {
                out.append(bind_addr);
            }
            out.append(":");
            out.append(decimal_text(port as u64).as_str());
            out
        },
    }
}

/// The selector of a session: its connection and its tab, so that two sessions of one
/// connection are told apart.
pub open spec fn selector(connection: Seq<char>, tab: Seq<char>) -> Seq<char> {
    connection + "@"@ + tab
}

fn selector_text(connection: &str, tab: &str) -> (r: String)
    ensures
        r@ == selector(connection@, tab@),
{
    let mut out = String::from_str(connection);
    out.append("@");
    out.append(tab);
    out
}

/// The selector of the active session, where it is an SSH session with a connection.
pub open spec fn active_host_id(app: &AppState) -> Option<Seq<char>> {
    match app.active_session {
        None => None,
        Some(active) => match tab_of(app.sessions@, active@) {
            None => None,
            Some(tab) => if tab.kind != SessionType::Ssh {
                None
            } else {
                match config_of(app.session_configs@, tab.id@) {
                    None => None,
                    Some(config) => Some(selector(config.id@, tab.id@)),
                }
            },
        },
    }
}

/// The selector of the active session, where it is an SSH session with a connection.
pub fn derive_active_host_id_from(app: &AppState) -> (r: Option<String>)
    ensures
        opt_text(r) == active_host_id(app),
{
    match &app.active_session {
        None => None,
        Some(active) => match app.tab(active.as_str()) {
            None => None,
            Some(tab) => if tab.kind != SessionType::Ssh {
                None
            } else {
                match app.config(tab.id.as_str()) {
                    None => None,
                    Some(config) => Some(selector_text(config.id.as_str(), tab.id.as_str())),
                }
            },
        },
    }
}

/// The host that a connection was configured with.
pub open spec fn configured_host(config: Option<ConnectionConfig>) -> Option<Seq<char>> {
    match config {
        Some(config) => match config.kind {
            ConnectionKind::Ssh(ssh) => Some(ssh.host@),
            ConnectionKind::Other => None,
        },
        None => None,
    }
}

/// How a session is shown and addressed. Its label tells the host that the shell reports; an
/// arrow tells that this is not the configured one.
pub open spec fn session_entry(app: &AppState, tab: SessionTab) -> (Seq<char>, Seq<char>) {
    let config = config_of(app.session_configs@, tab.id@);
    let label = match tab.hostname {
        Some(live) => match configured_host(config) {
            Some(host) => if live@ != host {
                tab.name@ + " \u{279c} "@ + live@
            } else {
                tab.name@ + " ("@ + live@ + ")"@
            },
            None => tab.name@ + " ("@ + live@ + ")"@,
        },
        None => tab.name@,
    };
    let id = match config {
        Some(config) => selector(config.id@, tab.id@),
        None => tab.name@,
    };
    (id, label)
}

/// Being an SSH session.
pub open spec fn is_ssh() -> spec_fn(SessionTab) -> bool {
    |tab: SessionTab| tab.kind == SessionType::Ssh
}

/// The SSH sessions in order, each with its selector and its label.
pub open spec fn session_entries(app: &AppState) -> Seq<(Seq<char>, Seq<char>)> {
    app.sessions@.filter(is_ssh()).map_values(|tab: SessionTab| session_entry(app, tab))
}

/// The texts of a list of selectors and labels.
pub open spec fn pairs(list: Seq<(String, String)>) -> Seq<(Seq<char>, Seq<char>)> {
    list.map_values(|p: (String, String)| (p.0@, p.1@))
}

fn session_entry_text(app: &AppState, tab: &SessionTab) -> (r: (String, String))
    ensures
        (r.0@, r.1@) == session_entry(app, *tab),
{
    let config = app.config(tab.id.as_str());
    let mut label = tab.name.clone();
    match &tab.hostname {
        Some(live) => {
            let jumped = match config {
                Some(config) => match &config.kind {
                    ConnectionKind::Ssh(ssh) => !same(live.as_str(), ssh.host.as_str()),
                    ConnectionKind::Other => false,
                },
                None => false,
            };
            if jumped {
                label.append(" \u{279c} ");
                label.append(live.as_str());
            } else {
                label.append(" (");
                label.append(live.as_str());
                label.append(")");
            }
        },
        None => {},
    }
    let id: String = match config {
        Some(config) => selector_text(config.id.as_str(), tab.id.as_str()),
        None => tab.name.clone(),
    };
    (id, label)
}

/// The SSH sessions in order, each with its selector and its label.
pub fn derive_sessions_from(app: &AppState) -> (r: Vec<(String, String)>)
    ensures
        pairs(r@) == session_entries(app),
{
    let mut out: Vec<(String, String)> = Vec::new();
    let ghost all = app.sessions@;
    let ghost entry = |tab: SessionTab| session_entry(app, tab);
    proof {
        lemma_filter_none(all, is_ssh());
        assert(pairs(out@) == Seq::<SessionTab>::empty().map_values(entry));
    }
    for i in 0..app.sessions.len()
        invariant
            all == app.sessions@,
            entry == (|tab: SessionTab| session_entry(app, tab)),
            pairs(out@) == all.take(i as int).filter(is_ssh()).map_values(entry),
    {
        let tab = &app.sessions[i];
        let ghost kept = all.take(i as int).filter(is_ssh());
        proof {
            lemma_filter_step(all, i as int, is_ssh());
        }
        if tab.kind == SessionType::Ssh {
            let pair = session_entry_text(app, tab);
            let ghost before = out@;
            out.push(pair);
            proof {
                assert(pairs(before.push(pair)) == pairs(before).push((pair.0@, pair.1@)));
                assert(kept.push(*tab).map_values(entry) == kept.map_values(entry).push(
                    entry(*tab),
                ));
            }
        }
    }
    proof {
        lemma_filter_none(all, is_ssh());
        assert(session_entries(app) == all.filter(is_ssh()).map_values(entry));
    }
    out
}

/// The selectors of a list of sessions.
pub open spec fn ids_of(sessions: Seq<(Seq<char>, Seq<char>)>) -> Seq<Seq<char>> {
    sessions.map_values(|p: (Seq<char>, Seq<char>)| p.0)
}

/// The selectors of a list of sessions.
pub fn session_ids(sessions: &Vec<(String, String)>) -> (r: Vec<String>)
    ensures
        texts(r@) == ids_of(pairs(sessions@)),
{
    let mut out: Vec<String> = Vec::new();
    let ghost ids = ids_of(pairs(sessions@));
    for i in 0..sessions.len()
        invariant
            ids == ids_of(pairs(sessions@)),
            texts(out@) == ids.take(i as int),
    {
        let ghost before = out@;
        out.push(sessions[i].0.clone());
        proof {
            lemma_texts_push(before, sessions@[i as int].0);
            assert(ids.take(i as int).push(ids[i as int]) == ids.take(i + 1));
        }
    }
    assert(ids.take(sessions@.len() as int) == ids);
    out
}

/// The selection that follows the active session: the session itself where it is listed, else
/// the first one; nothing where no session is listed.
pub open spec fn follow_selection(
    active: Option<Seq<char>>,
    sessions: Seq<(Seq<char>, Seq<char>)>,
) -> Option<Seq<Seq<char>>> {
    if active is Some && ids_of(sessions).contains(active->0) {
        Some(seq![active->0])
    } else if sessions.len() > 0 {
        Some(seq![sessions[0].0])
    } else {
        None
    }
}

/// The view of an optional list of texts.
pub open spec fn opt_texts(list: Option<Vec<String>>) -> Option<Seq<Seq<char>>> {
    match list {
        Some(list) => Some(texts(list@)),
        None => None,
    }
}

/// The selection that follows the active session.
pub fn derive_follow_selection(
    active_host_id: &Option<String>,
    sessions: &Vec<(String, String)>,
) -> (r: Option<Vec<String>>)
    ensures
        opt_texts(r) == follow_selection(opt_text(*active_host_id), pairs(sessions@)),
{
    let ids = session_ids(sessions);
    match active_host_id {
        Some(id) => {
            if list_contains(&ids, id.as_str()) {
                let mut out: Vec<String> = Vec::new();
                out.push(id.clone());
                assert(texts(out@) == seq![id@]);
                return Some(out);
            }
        },
        None => {},
    }
    if sessions.len() > 0 {
        let mut out: Vec<String> = Vec::new();
        out.push(sessions[0].0.clone());
        assert(texts(out@) == seq![pairs(sessions@)[0].0]);
        Some(out)
    } else {
        None
    }
}

/// The selected sessions, and whether the user has chosen them.
#[derive(Clone, Debug, PartialEq)]
pub struct Selection {
    pub selected: Vec<String>,
    pub user_overrode: bool,
}

/// A selection that was just made for the active session.
pub open spec fn seeded(
    active: Option<Seq<char>>,
    sessions: Seq<(Seq<char>, Seq<char>)>,
) -> Seq<Seq<char>> {
    match follow_selection(active, sessions) {
        Some(selection) => selection,
        None => Seq::empty(),
    }
}

fn seed(active: &Option<String>, sessions: &Vec<(String, String)>) -> (r: Vec<String>)
    ensures
        texts(r@) == seeded(opt_text(*active), pairs(sessions@)),
{
    match derive_follow_selection(active, sessions) {
        Some(selection) => selection,
        None => {
            let out: Vec<String> = Vec::new();
            assert(texts(out@) == Seq::<Seq<char>>::empty());
            out
        },
    }
}

/// The selected sessions that are still listed.
pub open spec fn still_listed(
    selected: Seq<Seq<char>>,
    sessions: Seq<(Seq<char>, Seq<char>)>,
) -> Seq<Seq<char>> {
    selected.filter(is_listed(ids_of(sessions)))
}

/// Whether something was selected and none of it is listed any more.
pub open spec fn all_gone(
    selected: Seq<Seq<char>>,
    sessions: Seq<(Seq<char>, Seq<char>)>,
) -> bool {
    still_listed(selected, sessions) != selected && still_listed(selected, sessions).len() == 0
}

/// The selection without the sessions that are gone; where all of them are, the one that
/// follows the active session.
pub open spec fn reconciled(
    selected: Seq<Seq<char>>,
    active: Option<Seq<char>>,
    sessions: Seq<(Seq<char>, Seq<char>)>,
) -> Seq<Seq<char>> {
    if all_gone(selected, sessions) {
        seeded(active, sessions)
    } else {
        still_listed(selected, sessions)
    }
}

/// The selection after one session was checked or unchecked.
pub open spec fn toggled(selected: Seq<Seq<char>>, id: Seq<char>, checked: bool) -> Seq<Seq<char>> {
    if !checked {
        selected.filter(is_other(id))
    } else if selected.contains(id) {
        selected
    } else {
        selected.push(id)
    }
}

impl Selection {
    /// The selection of a panel that was just opened.
    pub fn opened(active: &Option<String>, sessions: &Vec<(String, String)>) -> (r: Selection)
        ensures
            texts(r.selected@) == seeded(opt_text(*active), pairs(sessions@)),
            !r.user_overrode,
    {
        Selection { selected: seed(active, sessions), user_overrode: false }
    }

    /// Drops the sessions that are gone. Where all of them are, the selection follows the
    /// active session again.
    pub fn reconcile(&mut self, active: &Option<String>, sessions: &Vec<(String, String)>)
        ensures
            texts(final(self).selected@) == reconciled(
                texts(old(self).selected@),
                opt_text(*active),
                pairs(sessions@),
            ),
            final(self).user_overrode == (old(self).user_overrode && !all_gone(
                texts(old(self).selected@),
                pairs(sessions@),
            )),
    {
        let ids = session_ids(sessions);
        let valid = retain_listed(&self.selected, &ids);
        if !same_texts(&valid, &self.selected) {
            if valid.len() == 0 {
                self.selected = seed(active, sessions);
                self.user_overrode = false;
            } else {
                self.selected = valid;
            }
        }
    }

    /// Follows the active session, unless the user has chosen. Where there is no session the
    /// selection stays.
    pub fn auto_follow(&mut self, active: &Option<String>, sessions: &Vec<(String, String)>)
        ensures
            final(self).user_overrode == old(self).user_overrode,
            texts(final(self).selected@) == (if old(self).user_overrode {
                texts(old(self).selected@)
            } else {
                match follow_selection(opt_text(*active), pairs(sessions@)) {
                    Some(selection) => selection,
                    None => texts(old(self).selected@),
                }
            }),
    {
        if !self.user_overrode {
            match derive_follow_selection(active, sessions) {
                Some(selection) => {
                    self.selected = selection;
                },
                None => {},
            }
        }
    }

    /// Follows the active session from now on.
    pub fn follow_active(&mut self, active: &Option<String>, sessions: &Vec<(String, String)>)
        ensures
            !final(self).user_overrode,
            texts(final(self).selected@) == match follow_selection(
                opt_text(*active),
                pairs(sessions@),
            ) {
                Some(selection) => selection,
                None => texts(old(self).selected@),
            },
    {
        self.user_overrode = false;
        self.auto_follow(active, sessions);
    }

    /// Selects every session, by the user's choice.
    pub fn select_all(&mut self, sessions: &Vec<(String, String)>)
        ensures
            final(self).user_overrode,
            texts(final(self).selected@) == ids_of(pairs(sessions@)),
    {
        self.selected = session_ids(sessions);
        self.user_overrode = true;
    }

    /// Selects nothing, by the user's choice.
    pub fn clear(&mut self)
        ensures
            final(self).user_overrode,
            texts(final(self).selected@) == Seq::<Seq<char>>::empty(),
    {
        self.selected = Vec::new();
        self.user_overrode = true;
        assert(texts(self.selected@) == Seq::<Seq<char>>::empty());
    }

    /// Selects or deselects one session, by the user's choice. A session is selected once.
    pub fn toggle(&mut self, id: &str, checked: bool)
        ensures
            final(self).user_overrode,
            texts(final(self).selected@) == toggled(texts(old(self).selected@), id@, checked),
    {
        if checked {
            if !list_contains(&self.selected, id) {
                let ghost before = self.selected@;
                let entry = id.to_owned();
                self.selected.push(entry);
                proof {
                    lemma_texts_push(before, entry);
                }
            }
        } else {
            self.selected = retain_other(&self.selected, id);
        }
        self.user_overrode = true;
    }

    /// Whether a selected session runs on another host than the configured one.
    pub fn jumped(&self, sessions: &Vec<(String, String)>) -> (r: bool)
        ensures
            r == exists|i: int|
                0 <= i < sessions@.len() && texts(self.selected@).contains(
                    (#[trigger] pairs(sessions@)[i]).0,
                ) && holds_text(pairs(sessions@)[i].1, "\u{279c}"@),
    {
        for i in 0..sessions.len()
            invariant
                forall|j: int|
                    0 <= j < i ==> !(texts(self.selected@).contains(
                        (#[trigger] pairs(sessions@)[j]).0,
                    ) && holds_text(pairs(sessions@)[j].1, "\u{279c}"@)),
        {
            assert(pairs(sessions@)[i as int] == (
                sessions@[i as int].0@,
                sessions@[i as int].1@,
            ));
            if list_contains(&self.selected, sessions[i].0.as_str()) && contains_text(
                sessions[i].1.as_str(),
                "\u{279c}",
            ) {
                return true;
            }
        }
        false
    }
}

/// The active session's selector is one of those that the picker lists.
pub proof fn law_active_session_is_listed(app: &AppState)
    ensures
        active_host_id(app) matches Some(id) ==> ids_of(session_entries(app)).contains(id),
{
    if active_host_id(app) is Some {
        let active = app.active_session->0@;
        lemma_tab_found(app.sessions@, active);
        let tab = tab_of(app.sessions@, active)->0;
        let kept = app.sessions@.filter(is_ssh());
        broadcast use vstd::seq_lib::group_filter_ensures;

        let i = choose|i: int| 0 <= i < app.sessions@.len() && app.sessions@[i] == tab;
        assert(is_ssh()(app.sessions@[i]));
        assert(kept.contains(tab));
        let j = choose|j: int| 0 <= j < kept.len() && kept[j] == tab;
        assert(session_entries(app)[j] == session_entry(app, tab));
        assert(ids_of(session_entries(app))[j] == selector(
            config_of(app.session_configs@, tab.id@)->0.id@,
            tab.id@,
        ));
    }
}

/// Following the active session selects it, whenever it is an SSH session with a connection.
pub proof fn law_follow_selects_the_active_session(app: &AppState)
    ensures
        active_host_id(app) matches Some(id) ==> follow_selection(
            active_host_id(app),
            session_entries(app),
        ) == Some(seq![id]),
{
    law_active_session_is_listed(app);
}

/// A followed selection is one of the listed sessions.
pub proof fn law_follow_selects_a_listed_session(
    active: Option<Seq<char>>,
    sessions: Seq<(Seq<char>, Seq<char>)>,
)
    ensures
        follow_selection(active, sessions) is None <==> sessions.len() == 0,
        follow_selection(active, sessions) matches Some(selection) ==> selection.len() == 1
            && ids_of(sessions).contains(selection[0]),
{
    if sessions.len() > 0 {
        assert(ids_of(sessions)[0] == sessions[0].0);
    }
}

/// Whatever was selected, a reconciled selection targets listed sessions only.
pub proof fn law_reconciled_is_listed(
    selected: Seq<Seq<char>>,
    active: Option<Seq<char>>,
    sessions: Seq<(Seq<char>, Seq<char>)>,
    i: int,
)
    requires
        0 <= i < reconciled(selected, active, sessions).len(),
    ensures
        ids_of(sessions).contains(reconciled(selected, active, sessions)[i]),
{
    law_follow_selects_a_listed_session(active, sessions);
    broadcast use vstd::seq_lib::group_filter_ensures;

    let valid = still_listed(selected, sessions);
    if !all_gone(selected, sessions) {
        assert(is_listed(ids_of(sessions))(valid[i]));
    }
}

/// A checked session is selected, an unchecked one is not, and the others stay as they were.
pub proof fn law_toggled(
    selected: Seq<Seq<char>>,
    id: Seq<char>,
    checked: bool,
    other: Seq<char>,
)
    ensures
        toggled(selected, id, checked).contains(id) == checked,
        other != id ==> toggled(selected, id, checked).contains(other) == selected.contains(other),
        selected.no_duplicates() ==> toggled(selected, id, checked).no_duplicates(),
{
    broadcast use vstd::seq_lib::group_filter_ensures;

    let result = toggled(selected, id, checked);
    if !checked {
        if result.contains(id) {
            let i = choose|i: int| 0 <= i < result.len() && result[i] == id;
            assert(is_other(id)(result[i]));
        }
        if other != id && selected.contains(other) {
            let i = choose|i: int| 0 <= i < selected.len() && selected[i] == other;
            assert(is_other(id)(selected[i]));
        }
        if result.contains(other) {
            selected.lemma_filter_contains_rev(is_other(id), other);
        }
        if selected.no_duplicates() {
            lemma_filter_unique(selected, is_other(id));
        }
    } else if !selected.contains(id) {
        assert(result[selected.len() as int] == id);
        if selected.contains(other) {
            let i = choose|i: int| 0 <= i < selected.len() && selected[i] == other;
            assert(result[i] == other);
        }
        if result.contains(other) && other != id {
            let i = choose|i: int| 0 <= i < result.len() && result[i] == other;
            assert(selected[i] == other);
        }
    }
}

/// Two sessions of one connection have different selectors.
pub proof fn law_selectors_distinct(connection: Seq<char>, a: Seq<char>, b: Seq<char>)
    ensures
        selector(connection, a) == selector(connection, b) <==> a == b,
{
    if selector(connection, a) == selector(connection, b) {
        let lead = connection + "@"@;
        assert((lead + a).len() == (lead + b).len());
        assert forall|i: int| 0 <= i < a.len() implies a[i] == b[i] by {
            assert((lead + a)[lead.len() + i] == a[i]);
            assert((lead + b)[lead.len() + i] == b[i]);
        }
        assert(a == b);
    }
}

// ---------------------------------------------------------------------------------------------
// Accounts
// ---------------------------------------------------------------------------------------------

/// The account that scripts name: the first one, a placeholder where there is none.
pub fn default_user(accounts: &Vec<RelayAccount>) -> (r: String)
    ensures
        r@ == (if accounts@.len() > 0 {
            accounts@[0].username@
        } else {
            "USER"@
        }),
{
    if accounts.len() > 0 {
        accounts[0].username.clone()
    } else {
        "USER".to_owned()
    }
}

/// The form for a new account.
#[derive(Clone, Debug, PartialEq)]
pub struct AccountForm {
    pub username: String,
    pub password: String,
    pub readonly: bool,
    pub error: String,
}

impl AccountForm {
    /// Checks the form: the trimmed name and the password must not be empty, and the name must
    /// be new. The name is handed back where the password is to be hashed.
    pub fn begin_add(
        &mut self,
        accounts: &Vec<RelayAccount>,
        language: Language,
        catalog: &Catalog,
    ) -> (r: Option<String>)
        ensures
            ({
                let user = trimmed(old(self).username@);
                let blank = user.len() == 0 || old(self).password@.len() == 0;
                let taken = has_account(accounts@, user);
                &&& r is Some <==> !blank && !taken
                &&& r matches Some(name) ==> name@ == user && *final(self) == *old(self)
                &&& r is None ==> {
                    &&& final(self).username == old(self).username
                    &&& final(self).password == old(self).password
                    &&& final(self).readonly == old(self).readonly
                    &&& final(self).error@ == (if blank {
                        catalog.text(language, "api.fill_user_pass"@)
                    } else {
                        catalog.text_with(language, "api.account_exists"@, "name"@, user)
                    })
                }
            }),
    {
        let user = trim(self.username.as_str());
        if user.as_str().is_empty() || self.password.as_str().is_empty() {
            self.error = catalog.t_for(language, "api.fill_user_pass");
            return None;
        }
        if account_exists(accounts, user.as_str()) {
            self.error = catalog.tf_for(language, "api.account_exists", "name", user.as_str());
            return None;
        }
        Some(user)
    }

    /// Adds the account once its password is hashed, with no restriction on hosts and commands,
    /// and empties the form; a failure is shown and changes nothing else.
    pub fn finish_add(
        &mut self,
        accounts: &mut Vec<RelayAccount>,
        username: String,
        hashed: Result<String, String>,
    )
        ensures
            match hashed {
                Ok(hash) => {
                    &&& accounts_view(final(accounts)@) == accounts_view(old(accounts)@).push(
                        AccountText {
                            username: username@,
                            password_hash: hash@,
                            allowed_hosts: Seq::empty(),
                            allowed_commands: Seq::empty(),
                            readonly: old(self).readonly,
                        },
                    )
                    &&& final(self).username@ == Seq::<char>::empty()
                    &&& final(self).password@ == Seq::<char>::empty()
                    &&& !final(self).readonly
                    &&& final(self).error@ == Seq::<char>::empty()
                },
                Err(message) => {
                    &&& final(accounts)@ == old(accounts)@
                    &&& final(self).username == old(self).username
                    &&& final(self).password == old(self).password
                    &&& final(self).readonly == old(self).readonly
                    &&& final(self).error == message
                },
            },
    {
        match hashed {
            Ok(hash) => {
                let account = RelayAccount {
                    username,
                    password_hash: hash,
                    allowed_hosts: Vec::new(),
                    allowed_commands: Vec::new(),
                    readonly: self.readonly,
                };
                let ghost before = accounts@;
                accounts.push(account);
                proof {
                    assert(texts(account.allowed_hosts@) == Seq::<Seq<char>>::empty());
                    assert(texts(account.allowed_commands@) == Seq::<Seq<char>>::empty());
                    assert(accounts_view(before.push(account)) == accounts_view(before).push(
                        account@,
                    ));
                }
                self.username = String::new();
                self.password = String::new();
                self.readonly = false;
                self.error = String::new();
            },
            Err(message) => {
                self.error = message;
            },
        }
    }
}

// ---------------------------------------------------------------------------------------------
// The relay's switch
// ---------------------------------------------------------------------------------------------

/// The relay as the panel shows it.
#[derive(Clone, Debug, PartialEq)]
pub struct RelaySwitch {
    pub running: bool,
    pub started_url: Option<String>,
    pub status: String,
}

impl RelaySwitch {
    /// The stop button: once the settings are stored the relay is to be stopped (`true`); a
    /// failure to store them is shown and the relay goes on.
    pub fn stop(&mut self, stored: Result<(), String>) -> (r: bool)
        ensures
            r == stored is Ok,
            match stored {
                Ok(_) => !final(self).running && final(self).started_url is None && final(self).status == old(self).status,
                Err(message) => final(self).running == old(self).running && final(self).started_url == old(self).started_url && final(self).status == message,
            },
    {
        match stored {
            Ok(_) => {
                self.running = false;
                self.started_url = None;
                true
            },
            Err(message) => {
                self.status = message;
                false
            },
        }
    }

    /// The start button: once the settings are stored the relay is to be started (`true`); a
    /// failure to store them is shown.
    pub fn start(&mut self, stored: Result<(), String>) -> (r: bool)
        ensures
            r == stored is Ok,
            final(self).running == old(self).running,
            final(self).started_url == old(self).started_url,
            final(self).status == (match stored {
                Ok(_) => old(self).status,
                Err(message) => message,
            }),
    {
        match stored {
            Ok(_) => true,
            Err(message) => {
                self.status = message;
                false
            },
        }
    }

    /// What starting the relay gave: its address, or why it failed.
    pub fn started(&mut self, outcome: Result<Option<String>, String>)
        ensures
            match outcome {
                Ok(url) => final(self).running && final(self).started_url == url && final(self).status@ == Seq::<char>::empty(),
                Err(message) => final(self).running == old(self).running && final(self).started_url == old(self).started_url && final(self).status == message,
            },
    {
        match outcome {
            Ok(url) => {
                self.running = true;
                self.started_url = url;
                self.status = String::new();
            },
            Err(message) => {
                self.status = message;
            },
        }
    }

    /// The save button.
    pub fn saved(&mut self, stored: Result<(), String>, language: Language, catalog: &Catalog)
        ensures
            final(self).running == old(self).running,
            final(self).started_url == old(self).started_url,
            final(self).status@ == (match stored {
                Ok(_) => catalog.text(language, "api.saved"@),
                Err(message) => message@,
            }),
    {
        self.status = match stored {
            Ok(_) => catalog.t_for(language, "api.saved"),
            Err(message) => message,
        };
    }

    /// The port field: a text that is a port is taken over and clears the status; any other
    /// text changes nothing.
    pub fn port_typed(&mut self, port: &mut u16, typed: &str)
        ensures
            final(self).running == old(self).running,
            final(self).started_url == old(self).started_url,
            match parsed(typed@, 65535) {
                Some(value) => *final(port) == value && final(self).status@ == Seq::<char>::empty(),
                None => *final(port) == *old(port) && final(self).status == old(self).status,
            },
    {
        match parse_unsigned(typed, 65535) {
            Some(value) => {
                *port = value as u16;
                self.status = String::new();
            },
            None => {},
        }
    }
}

// ---------------------------------------------------------------------------------------------
// Laws
// ---------------------------------------------------------------------------------------------

/// A template is stored under the mode in which it was written, and belongs to that mode.
pub proof fn law_template_keeps_its_mode(mode: CurlMode)
    ensures
        stored_mode(mode) == ApiTemplateMode::Command <==> mode == CurlMode::Command,
        stored_mode(mode) == ApiTemplateMode::Script <==> mode == CurlMode::Script,
        stored_mode(mode) == ApiTemplateMode::ScriptBase64 <==> mode == CurlMode::ScriptBase64,
{
}

/// A label is the start of the command: all of it up to thirty characters, and of a longer one
/// the first thirty with an ellipsis behind them.
pub proof fn law_label_is_the_start_of_the_command(command: Seq<char>)
    ensures
        command.len() <= 30 ==> label_of(command) == command,
        command.len() > 30 ==> label_of(command).len() == 31 && label_of(command)[30] == '\u{2026}',
        forall|i: int|
            0 <= i < command.len() && i < 30 ==> #[trigger] label_of(command)[i] == command[i],
{
}

/// The positions of a mode's built-in templates are those at which such a template stands, each
/// once, in order.
pub proof fn law_preset_positions(list: Seq<PresetTemplate>, mode: CurlMode, at: usize)
    requires
        list.len() <= usize::MAX,
    ensures
        preset_positions(list, mode).contains(at) <==> at < list.len() && list[at as int].mode
            == mode,
        forall|i: int, j: int|
            0 <= i < j < preset_positions(list, mode).len() ==> #[trigger] preset_positions(
                list,
                mode,
            )[i] < #[trigger] preset_positions(list, mode)[j],
    decreases list.len(),
{
    let all = preset_positions(list, mode);
    if list.len() > 0 {
        let rest = list.drop_last();
        let last = (list.len() - 1) as usize;
        let before = preset_positions(rest, mode);
        law_preset_positions(rest, mode, at);
        lemma_preset_bound(rest, mode);
        if all.contains(at) {
            let i = choose|i: int| 0 <= i < all.len() && all[i] == at;
            if i < before.len() {
                assert(before[i] == at);
                assert(before.contains(at));
            }
        }
        if at < list.len() && list[at as int].mode == mode {
            if at < rest.len() {
                assert(rest[at as int] == list[at as int]);
                let i = choose|i: int| 0 <= i < before.len() && before[i] == at;
                assert(all[i] == at);
            } else {
                assert(all[all.len() - 1] == at);
            }
        }
    }
}

proof fn lemma_preset_bound(list: Seq<PresetTemplate>, mode: CurlMode)
    requires
        list.len() <= usize::MAX,
    ensures
        forall|i: int|
            0 <= i < preset_positions(list, mode).len() ==> #[trigger] preset_positions(list, mode)[i]
                < list.len(),
    decreases list.len(),
{
    if list.len() > 0 {
        let rest = list.drop_last();
        lemma_preset_bound(rest, mode);
        assert forall|i: int| 0 <= i < preset_positions(list, mode).len() implies
            #[trigger] preset_positions(list, mode)[i] < list.len() by {
            if i < preset_positions(rest, mode).len() {
                assert(preset_positions(rest, mode)[i] < rest.len());
            }
        }
    }
}

/// The positions of a mode's own templates are those at which a template of that mode stands,
/// each once, in order.
pub proof fn law_template_positions(list: Seq<CustomApiTemplate>, mode: CurlMode, at: usize)
    requires
        list.len() <= usize::MAX,
    ensures
        template_positions(list, mode).contains(at) <==> at < list.len() && (match list[at as int].mode {
            ApiTemplateMode::Command => mode == CurlMode::Command,
            ApiTemplateMode::Script => mode == CurlMode::Script,
            ApiTemplateMode::ScriptBase64 => mode == CurlMode::ScriptBase64,
        }),
        forall|i: int, j: int|
            0 <= i < j < template_positions(list, mode).len() ==> #[trigger] template_positions(
                list,
                mode,
            )[i] < #[trigger] template_positions(list, mode)[j],
    decreases list.len(),
{
    let all = template_positions(list, mode);
    if list.len() > 0 {
        let rest = list.drop_last();
        let before = template_positions(rest, mode);
        law_template_positions(rest, mode, at);
        lemma_template_bound(rest, mode);
        if all.contains(at) {
            let i = choose|i: int| 0 <= i < all.len() && all[i] == at;
            if i < before.len() {
                assert(before[i] == at);
                assert(before.contains(at));
            }
        }
        if at < list.len() && list[at as int].mode == stored_mode(mode) {
            if at < rest.len() {
                assert(rest[at as int] == list[at as int]);
                let i = choose|i: int| 0 <= i < before.len() && before[i] == at;
                assert(all[i] == at);
            } else {
                assert(all[all.len() - 1] == at);
            }
        }
    }
}

proof fn lemma_template_bound(list: Seq<CustomApiTemplate>, mode: CurlMode)
    requires
        list.len() <= usize::MAX,
    ensures
        forall|i: int|
            0 <= i < template_positions(list, mode).len() ==> #[trigger] template_positions(
                list,
                mode,
            )[i] < list.len(),
    decreases list.len(),
{
    if list.len() > 0 {
        let rest = list.drop_last();
        lemma_template_bound(rest, mode);
        assert forall|i: int| 0 <= i < template_positions(list, mode).len() implies
            #[trigger] template_positions(list, mode)[i] < list.len() by {
            if i < template_positions(rest, mode).len() {
                assert(template_positions(rest, mode)[i] < rest.len());
            }
        }
    }
}

/// A built-in command is its own label, a built-in script starts with the line that names its
/// shell, and there is none for an encoded script.
pub proof fn law_presets(i: int)
    requires
        0 <= i < preset_table().len(),
    ensures
        preset_table()[i].mode == CurlMode::Command ==> preset_table()[i].label
            == preset_table()[i].body,
        preset_table()[i].mode == CurlMode::Script ==> crate::search::starts_with_text(
            preset_table()[i].body@,
            "#!/bin/sh\n"@,
        ),
        preset_table()[i].mode != CurlMode::ScriptBase64,
{
    reveal_strlit("#!/bin/sh\n");
    reveal_strlit("#!/bin/sh\nset -e\nhostname\nuptime\nfree -h\ndf -h");
    reveal_strlit("#!/bin/sh\ndu -sh /var/log/* 2>/dev/null | sort -rh | head -20");
    let body = preset_table()[i].body@;
    if preset_table()[i].mode == CurlMode::Script {
        assert(body.subrange(0, 10) == "#!/bin/sh\n"@);
    }
}

/// The selector of a session gives back its connection and its tab, where the connection's id
/// holds no at sign.
pub proof fn law_selector_reads_back(connection: Seq<char>, tab: Seq<char>)
    requires
        !connection.contains('@'),
    ensures
        crate::search::cut_once(selector(connection, tab), '@') == Some((connection, tab)),
{
    reveal_strlit("@");
    assert("@"@ == seq!['@']);
    crate::search::law_cut_once(connection, '@', tab);
}

/// The active session is addressed by its connection and its tab where it is an SSH session with
/// a connection, and not at all otherwise.
pub proof fn law_active_selector(app: &AppState, tab: SessionTab, config: ConnectionConfig)
    ensures
        app.active_session is None ==> active_host_id(app) is None,
        app.active_session matches Some(active) ==> {
            &&& tab_of(app.sessions@, active@) is None ==> active_host_id(app) is None
            &&& tab_of(app.sessions@, active@) == Some(tab) && tab.kind != SessionType::Ssh
                ==> active_host_id(app) is None
            &&& tab_of(app.sessions@, active@) == Some(tab) && config_of(
                app.session_configs@,
                active@,
            ) is None ==> active_host_id(app) is None
            &&& tab_of(app.sessions@, active@) == Some(tab) && tab.kind == SessionType::Ssh
                && config_of(app.session_configs@, active@) == Some(config) ==> active_host_id(app)
                == Some(config.id@ + "@"@ + active@)
        },
{
    if let Some(active) = app.active_session {
        lemma_tab_found(app.sessions@, active@);
    }
}

/// A session is shown under its name. The host that its shell reports stands behind it: in
/// brackets where that is the host of its connection or none is known, behind an arrow where it
/// is another one. It is addressed by its connection and its tab, without a connection by its
/// name.
pub proof fn law_session_label(app: &AppState, tab: SessionTab, ssh: crate::model::SshConfig)
    ensures
        tab.hostname is None ==> session_entry(app, tab).1 == tab.name@,
        tab.hostname matches Some(live) ==> {
            &&& config_of(app.session_configs@, tab.id@) is None ==> session_entry(app, tab).1
                == tab.name@ + " ("@ + live@ + ")"@
            &&& config_of(app.session_configs@, tab.id@) matches Some(c) ==> (c.kind
                == ConnectionKind::Ssh(ssh) && ssh.host@ != live@ ==> session_entry(app, tab).1
                == tab.name@ + " \u{279c} "@ + live@)
            &&& config_of(app.session_configs@, tab.id@) matches Some(c) ==> (c.kind
                == ConnectionKind::Ssh(ssh) && ssh.host@ == live@ ==> session_entry(app, tab).1
                == tab.name@ + " ("@ + live@ + ")"@)
            &&& config_of(app.session_configs@, tab.id@) matches Some(c) ==> (c.kind is Other
                ==> session_entry(app, tab).1 == tab.name@ + " ("@ + live@ + ")"@)
        },
        config_of(app.session_configs@, tab.id@) is None ==> session_entry(app, tab).0 == tab.name@,
        config_of(app.session_configs@, tab.id@) matches Some(c) ==> session_entry(app, tab).0
            == c.id@ + "@"@ + tab.id@,
{
}

/// Every SSH session is listed, and everything that is listed is an SSH session.
pub proof fn law_ssh_sessions_are_listed(app: &AppState, tab: SessionTab, i: int)
    ensures
        app.sessions@.contains(tab) && tab.kind == SessionType::Ssh ==> session_entries(
            app,
        ).contains(session_entry(app, tab)),
        0 <= i < session_entries(app).len() ==> exists|k: int|
            0 <= k < app.sessions@.len() && (#[trigger] app.sessions@[k]).kind == SessionType::Ssh
                && session_entries(app)[i] == session_entry(app, app.sessions@[k]),
{
    broadcast use vstd::seq_lib::group_filter_ensures;

    let kept = app.sessions@.filter(is_ssh());
    let entries = session_entries(app);
    if app.sessions@.contains(tab) && tab.kind == SessionType::Ssh {
        assert(is_ssh()(tab));
        let k = choose|k: int| 0 <= k < app.sessions@.len() && app.sessions@[k] == tab;
        assert(kept.contains(app.sessions@[k]));
        let j = choose|j: int| 0 <= j < kept.len() && kept[j] == tab;
        assert(entries[j] == session_entry(app, tab));
    }
    if 0 <= i < entries.len() {
        assert(is_ssh()(kept[i]));
        crate::text::lemma_filtered_is_listed(app.sessions@, is_ssh(), i);
        let k = choose|k: int| 0 <= k < app.sessions@.len() && app.sessions@[k] == kept[i];
        assert(entries[i] == session_entry(app, app.sessions@[k]));
    }
}

/// Where the active session is not listed, the first one of the list is selected.
pub proof fn law_follow_falls_back_to_the_first(
    active: Option<Seq<char>>,
    sessions: Seq<(Seq<char>, Seq<char>)>,
)
    requires
        sessions.len() > 0,
        active matches Some(id) ==> forall|i: int|
            0 <= i < sessions.len() ==> (#[trigger] sessions[i]).0 != id,
    ensures
        follow_selection(active, sessions) == Some(seq![sessions[0].0]),
{
    if let Some(id) = active {
        if ids_of(sessions).contains(id) {
            let i = choose|i: int| 0 <= i < ids_of(sessions).len() && ids_of(sessions)[i] == id;
            assert(sessions[i].0 == id);
        }
    }
}

/// What a reconciled selection holds: every selected session that is still listed, as long as
/// there is one; a selection of which nothing is left follows the active session, and one that
/// was empty stays empty.
pub proof fn law_reconciled_keeps_what_is_listed(
    selected: Seq<Seq<char>>,
    active: Option<Seq<char>>,
    sessions: Seq<(Seq<char>, Seq<char>)>,
    id: Seq<char>,
)
    ensures
        selected.contains(id) && ids_of(sessions).contains(id) ==> reconciled(
            selected,
            active,
            sessions,
        ).to_multiset().count(id) == selected.to_multiset().count(id),
        (forall|i: int| 0 <= i < selected.len() ==> ids_of(sessions).contains(#[trigger] selected[i]))
            ==> reconciled(selected, active, sessions) == selected,
        selected.len() > 0 && (forall|i: int|
            0 <= i < selected.len() ==> !ids_of(sessions).contains(#[trigger] selected[i]))
            ==> reconciled(selected, active, sessions) == (match follow_selection(
            active,
            sessions,
        ) {
            Some(selection) => selection,
            None => Seq::empty(),
        }),
{
    broadcast use vstd::seq_lib::group_to_multiset_ensures;
    broadcast use vstd::seq_lib::group_filter_ensures;

    let keep = is_listed(ids_of(sessions));
    let kept = still_listed(selected, sessions);
    if selected.contains(id) && ids_of(sessions).contains(id) {
        crate::text::lemma_filter_count(selected, keep, id);
        assert(selected.to_multiset().contains(id));
        assert(kept.to_multiset().contains(id));
        assert(kept.contains(id));
    }
    if forall|i: int| 0 <= i < selected.len() ==> ids_of(sessions).contains(#[trigger] selected[i]) {
        lemma_keeps_all(selected, keep);
    }
    if selected.len() > 0 && (forall|i: int|
        0 <= i < selected.len() ==> !ids_of(sessions).contains(#[trigger] selected[i])) {
        if kept.len() > 0 {
            assert(keep(kept[0]));
            crate::text::lemma_filtered_is_listed(selected, keep, 0);
            let i = choose|i: int| 0 <= i < selected.len() && selected[i] == kept[0];
            assert(!ids_of(sessions).contains(selected[i]));
        }
    }
}

proof fn lemma_keeps_all<A>(s: Seq<A>, keep: spec_fn(A) -> bool)
    requires
        forall|i: int| 0 <= i < s.len() ==> keep(#[trigger] s[i]),
    ensures
        s.filter(keep) == s,
    decreases s.len(),
{
    reveal(Seq::filter);
    if s.len() > 0 {
        let rest = s.drop_last();
        assert forall|i: int| 0 <= i < rest.len() implies keep(#[trigger] rest[i]) by {
            assert(keep(s[i]));
        }
        lemma_keeps_all(rest, keep);
        assert(keep(s[s.len() - 1]));
    }
}

/// A session that is newly checked comes last, and one that was selected keeps its place.
pub proof fn law_checked_comes_last(selected: Seq<Seq<char>>, id: Seq<char>)
    ensures
        !selected.contains(id) ==> toggled(selected, id, true) == selected.push(id),
        selected.contains(id) ==> toggled(selected, id, true) == selected,
{
}

/// A selection is lost exactly when something was selected and none of it is listed any more; a
/// panel that opens selects what follows the active session, and nothing without sessions.
pub proof fn law_lost_selection(
    selected: Seq<Seq<char>>,
    active: Option<Seq<char>>,
    sessions: Seq<(Seq<char>, Seq<char>)>,
)
    ensures
        all_gone(selected, sessions) <==> selected.len() > 0 && forall|i: int|
            0 <= i < selected.len() ==> !ids_of(sessions).contains(#[trigger] selected[i]),
        sessions.len() == 0 ==> seeded(active, sessions) == Seq::<Seq<char>>::empty(),
        sessions.len() > 0 ==> Some(seeded(active, sessions)) == follow_selection(active, sessions),
{
    broadcast use vstd::seq_lib::group_filter_ensures;

    let keep = is_listed(ids_of(sessions));
    let kept = still_listed(selected, sessions);
    if kept.len() > 0 {
        crate::text::lemma_filtered_is_listed(selected, keep, 0);
        let i = choose|i: int| 0 <= i < selected.len() && selected[i] == kept[0];
        assert(ids_of(sessions).contains(selected[i]));
    }
    if selected.len() > 0 && kept.len() == 0 {
        assert forall|i: int| 0 <= i < selected.len() implies !ids_of(sessions).contains(
            #[trigger] selected[i],
        ) by {
            if keep(selected[i]) {
                assert(kept.contains(selected[i]));
            }
        }
    }
    if selected.len() == 0 {
        reveal(Seq::filter);
        assert(kept == selected);
    }
}

} // verus!
