//! The chat panel: its command palette, the conversation with an agent, and the agent's
//! settings.

use vstd::prelude::*;

use crate::i18n::{Catalog, Language};
use crate::number::{decimal, decimal_text};
use crate::search::{contains_text, cut_once, holds_text, split_once};
use crate::text::{
    ascii_lowercase, chars_of, flat_map, lemma_filter_none, lemma_filter_step, lemma_flat_map_push,
    opt_text, same, slice_of, texts, to_ascii_lower, trim, trimmed,
};

verus! {

// ---------------------------------------------------------------------------------------------
// Settings
// ---------------------------------------------------------------------------------------------

/// The protocol family of an agent.
#[derive(Clone, Copy, PartialEq, Eq, Structural, Debug)]
pub enum ChatAgentProvider {
    OpenAI,
    Anthropic,
    Local,
}

/// How requests reach the network.
#[derive(Clone, Copy, PartialEq, Eq, Structural, Debug)]
pub enum ChatProxyMode {
    System,
    Off,
    Clash,
    Custom,
}

/// Where the panel stands.
#[derive(Clone, Copy, PartialEq, Eq, Structural, Debug)]
pub enum ChatDock {
    Floating,
    Right,
    Bottom,
}

/// An agent. Its key is not part of it: keys are held apart, in memory only.
#[derive(Clone, Debug, PartialEq)]
pub struct AgentConfig {
    pub id: String,
    pub name: String,
    pub provider: ChatAgentProvider,
    pub model: String,
    pub base_url: String,
    pub system_prompt: String,
}

/// The settings that are stored.
#[derive(Clone, Debug, PartialEq)]
pub struct ChatSettings {
    pub visible: bool,
    pub dock: ChatDock,
    pub agents: Vec<AgentConfig>,
    pub active_agent_id: Option<String>,
    pub proxy_mode: ChatProxyMode,
    pub proxy_url: String,
    pub allow_remote_presets: bool,
}

/// The place after this one: floating, right, bottom, and around again.
pub open spec fn next_place(dock: ChatDock) -> ChatDock {
    match dock {
        ChatDock::Floating => ChatDock::Right,
        ChatDock::Right => ChatDock::Bottom,
        ChatDock::Bottom => ChatDock::Floating,
    }
}

/// The place after this one.
pub fn next_dock(dock: ChatDock) -> (r: ChatDock)
    ensures
        r == next_place(dock),
        dock == ChatDock::Floating ==> r == ChatDock::Right,
        dock == ChatDock::Right ==> r == ChatDock::Bottom,
        dock == ChatDock::Bottom ==> r == ChatDock::Floating,
{
    match dock {
        ChatDock::Floating => ChatDock::Right,
        ChatDock::Right => ChatDock::Bottom,
        ChatDock::Bottom => ChatDock::Floating,
    }
}

/// Three steps lead around.
pub proof fn law_dock_cycles(dock: ChatDock)
    ensures
        next_place(next_place(next_place(dock))) == dock,
        next_place(dock) != dock,
{
}

/// The name of a mode in the selector.
pub open spec fn mode_value(mode: ChatProxyMode) -> Seq<char> {
    match mode {
        ChatProxyMode::System => "system"@,
        ChatProxyMode::Off => "off"@,
        ChatProxyMode::Clash => "clash"@,
        ChatProxyMode::Custom => "custom"@,
    }
}

/// The mode of a name; an unknown name is the system's setting.
pub open spec fn mode_from(value: Seq<char>) -> ChatProxyMode {
    if value == "off"@ {
        ChatProxyMode::Off
    } else if value == "clash"@ {
        ChatProxyMode::Clash
    } else if value == "custom"@ {
        ChatProxyMode::Custom
    } else {
        ChatProxyMode::System
    }
}

/// The name of a mode in the selector.
pub fn proxy_mode_value(mode: ChatProxyMode) -> (r: &'static str)
    ensures
        r@ == mode_value(mode),
{
    match mode {
        ChatProxyMode::System => "system",
        ChatProxyMode::Off => "off",
        ChatProxyMode::Clash => "clash",
        ChatProxyMode::Custom => "custom",
    }
}

/// The mode of a name; an unknown name is the system's setting.
pub fn proxy_mode_from_value(value: &str) -> (r: ChatProxyMode)
    ensures
        r == mode_from(value@),
{
    if same(value, "off") {
        ChatProxyMode::Off
    } else if same(value, "clash") {
        ChatProxyMode::Clash
    } else if same(value, "custom") {
        ChatProxyMode::Custom
    } else {
        ChatProxyMode::System
    }
}

/// Selecting the name of a mode selects the mode.
pub proof fn law_proxy_mode_reads_back(mode: ChatProxyMode)
    ensures
        mode_from(mode_value(mode)) == mode,
{
    reveal_strlit("system");
    reveal_strlit("off");
    reveal_strlit("clash");
    reveal_strlit("custom");
    assert("system"@.len() == 6 && "off"@.len() == 3 && "clash"@.len() == 5 && "custom"@.len() == 6);
    assert("system"@[0] == 's' && "custom"@[0] == 'c');
}

/// How one request reaches the network.
#[derive(Clone, Debug, PartialEq)]
pub enum ProxySelection {
    System,
    Disabled,
    Url(String),
}

/// Whether a local Clash client has to be looked for before a request.
pub fn needs_clash_probe(settings: &ChatSettings) -> (r: bool)
    ensures
        r == (settings.proxy_mode == ChatProxyMode::Clash),
{
    settings.proxy_mode == ChatProxyMode::Clash
}

/// Whether a request goes the way that the settings ask for, given the address of the local
/// Clash client that was found.
pub open spec fn resolves_to(
    settings: ChatSettings,
    clash: Option<String>,
    selection: ProxySelection,
) -> bool {
    match settings.proxy_mode {
        ChatProxyMode::System => selection is System,
        ChatProxyMode::Off => selection is Disabled,
        ChatProxyMode::Custom => if trimmed(settings.proxy_url@).len() == 0 {
            selection is System
        } else {
            selection matches ProxySelection::Url(url) && url@ == trimmed(settings.proxy_url@)
        },
        ChatProxyMode::Clash => match clash {
            Some(found) => selection matches ProxySelection::Url(url) && url@ == found@,
            None => selection is Disabled,
        },
    }
}

/// The way of one request. A Clash client is looked for at each request, as it may come and go;
/// without one the request goes directly.
pub fn resolve_proxy_selection(settings: &ChatSettings, clash: Option<String>) -> (r:
    ProxySelection)
    ensures
        resolves_to(*settings, clash, r),
        settings.proxy_mode == ChatProxyMode::System ==> r is System,
        settings.proxy_mode == ChatProxyMode::Off ==> r is Disabled,
        settings.proxy_mode == ChatProxyMode::Clash && clash is None ==> r is Disabled,
        settings.proxy_mode == ChatProxyMode::Clash && clash is Some ==> r == ProxySelection::Url(
            clash->0,
        ),
        settings.proxy_mode == ChatProxyMode::Custom && trimmed(settings.proxy_url@).len() == 0
            ==> r is System,
        settings.proxy_mode == ChatProxyMode::Custom && trimmed(settings.proxy_url@).len() > 0
            ==> (r matches ProxySelection::Url(url) && url@ == trimmed(settings.proxy_url@)),
{
    match settings.proxy_mode {
        ChatProxyMode::System => ProxySelection::System,
        ChatProxyMode::Off => ProxySelection::Disabled,
        ChatProxyMode::Custom => {
            let url = trim(settings.proxy_url.as_str());
            if url.as_str().is_empty() {
                ProxySelection::System
            } else {
                ProxySelection::Url(url)
            }
        },
        ChatProxyMode::Clash => match clash {
            Some(url) => ProxySelection::Url(url),
            None => ProxySelection::Disabled,
        },
    }
}

/// Tells whether a local Clash client was found.
pub fn clash_feedback(found: &Option<String>, language: Language, catalog: &Catalog) -> (r: String)
    ensures
        r@ == match found {
            Some(url) => catalog.text(language, "chat.proxy_clash_found"@) + " "@ + url@,
            None => catalog.text(language, "chat.proxy_clash_missing"@),
        },
{
    match found {
        Some(url) => {
            let mut out = catalog.t_for(language, "chat.proxy_clash_found");
            out.append(" ");
            out.append(url.as_str());
            out
        },
        None => catalog.t_for(language, "chat.proxy_clash_missing"),
    }
}

/// The name of a provider.
pub fn provider_label(provider: ChatAgentProvider) -> (r: &'static str)
    ensures
        r@ == match provider {
            ChatAgentProvider::OpenAI => "OpenAI"@,
            ChatAgentProvider::Anthropic => "Anthropic"@,
            ChatAgentProvider::Local => "Local"@,
        },
{
    match provider {
        ChatAgentProvider::OpenAI => "OpenAI",
        ChatAgentProvider::Anthropic => "Anthropic",
        ChatAgentProvider::Local => "Local",
    }
}

/// Whether an address is one of this machine.
pub open spec fn is_loopback(base_url: Seq<char>) -> bool {
    let url = ascii_lowercase(trimmed(base_url));
    holds_text(url, "://127.0.0.1"@) || holds_text(url, "://localhost"@) || holds_text(
        url,
        "://[::1]"@,
    )
}

/// Whether an address is one of this machine; models that run here need no key.
pub fn is_loopback_base_url(base_url: &str) -> (r: bool)
    ensures
        r == is_loopback(base_url@),
{
    let url = to_ascii_lower(trim(base_url).as_str());
    contains_text(url.as_str(), "://127.0.0.1") || contains_text(url.as_str(), "://localhost")
        || contains_text(url.as_str(), "://[::1]")
}

/// The position of the first agent of an id.
pub open spec fn agent_at(agents: Seq<AgentConfig>, id: Seq<char>) -> Option<int>
    decreases agents.len(),
{
    if agents.len() == 0 {
        None
    } else {
        match agent_at(agents.drop_last(), id) {
            Some(at) => Some(at),
            None => if agents.last().id@ == id {
                Some(agents.len() - 1)
            } else {
                None
            },
        }
    }
}

proof fn lemma_agent_at(agents: Seq<AgentConfig>, id: Seq<char>, i: int)
    requires
        0 <= i < agents.len(),
        agents[i].id@ == id,
        forall|j: int| 0 <= j < i ==> (#[trigger] agents[j]).id@ != id,
    ensures
        agent_at(agents, id) == Some(i),
    decreases agents.len(),
{
    if i < agents.len() - 1 {
        assert forall|j: int| 0 <= j < i implies (#[trigger] agents.drop_last()[j]).id@ != id by {
            assert(agents[j].id@ != id);
        }
        lemma_agent_at(agents.drop_last(), id, i);
    } else {
        lemma_agent_absent(agents.drop_last(), id);
    }
}

proof fn lemma_agent_absent(agents: Seq<AgentConfig>, id: Seq<char>)
    requires
        forall|j: int| 0 <= j < agents.len() ==> (#[trigger] agents[j]).id@ != id,
    ensures
        agent_at(agents, id) is None,
    decreases agents.len(),
{
    if agents.len() > 0 {
        assert forall|j: int| 0 <= j < agents.drop_last().len() implies (
        #[trigger] agents.drop_last()[j]).id@ != id by {
            assert(agents[j].id@ != id);
        }
        lemma_agent_absent(agents.drop_last(), id);
        assert(agents[agents.len() - 1].id@ != id);
    }
}

/// The position of the first agent of an id.
pub fn find_agent(agents: &Vec<AgentConfig>, id: &str) -> (r: Option<usize>)
    ensures
        match r {
            Some(at) => agent_at(agents@, id@) == Some(at as int) && at < agents@.len(),
            None => agent_at(agents@, id@) is None,
        },
{
    for i in 0..agents.len()
        invariant
            forall|j: int| 0 <= j < i ==> (#[trigger] agents@[j]).id@ != id@,
    {
        if same(agents[i].id.as_str(), id) {
            proof {
                lemma_agent_at(agents@, id@, i as int);
            }
            return Some(i);
        }
    }
    proof {
        lemma_agent_absent(agents@, id@);
    }
    None
}

impl ChatSettings {
    /// The position of the active agent: the chosen one, the first one where none is chosen or
    /// the chosen one is gone.
    pub open spec fn active_at(&self) -> Option<int> {
        let chosen = match self.active_agent_id {
            Some(id) => agent_at(self.agents@, id@),
            None => None,
        };
        if chosen is Some {
            chosen
        } else if self.agents@.len() > 0 {
            Some(0)
        } else {
            None
        }
    }

    /// The position of the active agent.
    pub fn active_agent(&self) -> (r: Option<usize>)
        ensures
            match r {
                Some(at) => self.active_at() == Some(at as int) && at < self.agents@.len(),
                None => self.active_at() is None,
            },
    {
        match &self.active_agent_id {
            Some(id) => {
                let chosen = find_agent(&self.agents, id.as_str());
                if chosen.is_some() {
                    return chosen;
                }
            },
            None => {},
        }
        if self.agents.len() > 0 {
            Some(0)
        } else {
            None
        }
    }

    /// Hides the panel, so that it stays hidden when the settings are stored and read again.
    pub fn close(&mut self, shown: &mut bool)
        ensures
            !*final(shown),
            !final(self).visible,
            final(self).dock == old(self).dock,
            final(self).agents == old(self).agents,
            final(self).active_agent_id == old(self).active_agent_id,
            final(self).proxy_mode == old(self).proxy_mode,
            final(self).proxy_url == old(self).proxy_url,
            final(self).allow_remote_presets == old(self).allow_remote_presets,
    {
        *shown = false;
        self.visible = false;
    }
}

// ---------------------------------------------------------------------------------------------
// Keys
// ---------------------------------------------------------------------------------------------

/// The keys of the agents, held in memory only.
#[derive(Clone, Debug, PartialEq)]
pub struct ApiKeys {
    pub keys: Vec<(String, String)>,
}

/// The key that is held for an agent.
pub open spec fn key_of(keys: Seq<(String, String)>, agent_id: Seq<char>) -> Option<Seq<char>>
    decreases keys.len(),
{
    if keys.len() == 0 {
        None
    } else if keys.last().0@ == agent_id {
        Some(keys.last().1@)
    } else {
        key_of(keys.drop_last(), agent_id)
    }
}

impl ApiKeys {
    /// The key of an agent, empty where there is none.
    pub fn get(&self, agent_id: &str) -> (r: String)
        ensures
            r@ == match key_of(self.keys@, agent_id@) {
                Some(key) => key,
                None => Seq::empty(),
            },
    {
        let mut i: usize = self.keys.len();
        assert(self.keys@.take(i as int) == self.keys@);
        while i > 0
            invariant
                i <= self.keys@.len(),
                key_of(self.keys@.take(i as int), agent_id@) == key_of(self.keys@, agent_id@),
            decreases i,
        {
            if same(self.keys[i - 1].0.as_str(), agent_id) {
                return self.keys[i - 1].1.clone();
            }
            assert(self.keys@.take(i as int).drop_last() == self.keys@.take(i - 1));
            i = i - 1;
        }
        String::new()
    }

    /// Holds a key for an agent, in place of the one that was held.
    pub fn insert(&mut self, agent_id: String, key: String)
        ensures
            key_of(final(self).keys@, agent_id@) == Some(key@),
            forall|other: Seq<char>|
                other != agent_id@ ==> #[trigger] key_of(final(self).keys@, other) == key_of(
                    old(self).keys@,
                    other,
                ),
    {
        let ghost before = self.keys@;
        self.keys.push((agent_id, key));
        assert(self.keys@.drop_last() == before);
    }
}

// ---------------------------------------------------------------------------------------------
// The agent's form
// ---------------------------------------------------------------------------------------------

/// The form of an agent's settings.
#[derive(Clone, Debug, PartialEq)]
pub struct AgentDraft {
    pub name: String,
    pub model: String,
    pub base_url: String,
    pub system_prompt: String,
    pub api_key: String,
    pub provider: ChatAgentProvider,
}

/// A preset of a provider.
#[derive(Clone, Debug, PartialEq)]
pub struct ProviderPreset {
    pub id: String,
    pub name: String,
    pub model: String,
    pub base_url: String,
    pub protocol: String,
    pub open_source: bool,
    pub requires_key: bool,
    pub key_url: String,
}

impl AgentDraft {
    /// Fills the form with an agent's settings; the key field is always empty.
    pub fn seed(&mut self, agent: Option<&AgentConfig>)
        ensures
            final(self).api_key@.len() == 0,
            match agent {
                Some(agent) => final(self).name == agent.name && final(self).model == agent.model
                    && final(self).base_url == agent.base_url && final(self).system_prompt
                    == agent.system_prompt && final(self).provider == agent.provider,
                None => final(self).name == old(self).name && final(self).model == old(self).model
                    && final(self).base_url == old(self).base_url && final(self).system_prompt
                    == old(self).system_prompt && final(self).provider == old(self).provider,
            },
    {
        match agent {
            Some(agent) => {
                self.name = agent.name.clone();
                self.model = agent.model.clone();
                self.base_url = agent.base_url.clone();
                self.system_prompt = agent.system_prompt.clone();
                self.provider = agent.provider;
            },
            None => {},
        }
        self.api_key = String::new();
    }

    /// Fills the form with a preset, and tells so.
    pub fn apply_preset(&mut self, preset: &ProviderPreset, language: Language, catalog: &Catalog) -> (r:
        String)
        ensures
            final(self).name == preset.name,
            final(self).model == preset.model,
            final(self).base_url == preset.base_url,
            final(self).provider == (if preset.protocol@ == "anthropic"@ {
                ChatAgentProvider::Anthropic
            } else {
                ChatAgentProvider::OpenAI
            }),
            final(self).system_prompt == old(self).system_prompt,
            final(self).api_key == old(self).api_key,
            r@ == catalog.text(language, "chat.preset_applied"@) + " · "@ + preset.name@,
    {
        self.name = preset.name.clone();
        self.model = preset.model.clone();
        self.base_url = preset.base_url.clone();
        self.provider = if same(preset.protocol.as_str(), "anthropic") {
            ChatAgentProvider::Anthropic
        } else {
            ChatAgentProvider::OpenAI
        };
        let mut out = catalog.t_for(language, "chat.preset_applied");
        out.append(" · ");
        out.append(preset.name.as_str());
        out
    }

    /// Saves the form: the agent takes over the form's settings; a key that was entered is held
    /// in memory. What is told about it is handed back.
    pub fn save(
        &self,
        agent_id: &str,
        settings: &mut ChatSettings,
        keys: &mut ApiKeys,
        language: Language,
        catalog: &Catalog,
    ) -> (r: String)
        ensures
            final(settings).visible == old(settings).visible,
            final(settings).dock == old(settings).dock,
            final(settings).active_agent_id == old(settings).active_agent_id,
            final(settings).proxy_mode == old(settings).proxy_mode,
            final(settings).proxy_url == old(settings).proxy_url,
            final(settings).allow_remote_presets == old(settings).allow_remote_presets,
            final(settings).agents@ == (match agent_at(old(settings).agents@, agent_id@) {
                Some(at) => old(settings).agents@.update(
                    at,
                    AgentConfig {
                        id: old(settings).agents@[at].id,
                        name: self.name,
                        provider: self.provider,
                        model: self.model,
                        base_url: self.base_url,
                        system_prompt: self.system_prompt,
                    },
                ),
                None => old(settings).agents@,
            }),
            ({
                let key = trimmed(self.api_key@);
                let name = if agent_at(old(settings).agents@, agent_id@) is Some {
                    self.name@
                } else {
                    Seq::empty()
                };
                let saved = catalog.text(language, "chat.saved"@) + " · "@ + name;
                &&& r@ == (if key.len() == 0 {
                    saved
                } else {
                    saved + " ("@ + catalog.text(language, "chat.api_key_saved"@) + ")"@
                })
                &&& key.len() == 0 ==> *final(keys) == *old(keys)
                &&& key.len() > 0 ==> key_of(final(keys).keys@, agent_id@) == Some(key)
                &&& forall|other: Seq<char>|
                    other != agent_id@ ==> #[trigger] key_of(final(keys).keys@, other) == key_of(
                        old(keys).keys@,
                        other,
                    )
            }),
    {
        let mut out = catalog.t_for(language, "chat.saved");
        out.append(" · ");
        match find_agent(&settings.agents, agent_id) {
            Some(at) => {
                let agent = &mut settings.agents[at];
                agent.name = self.name.clone();
                agent.model = self.model.clone();
                agent.base_url = self.base_url.clone();
                agent.system_prompt = self.system_prompt.clone();
                agent.provider = self.provider;
                out.append(self.name.as_str());
            },
            None => {
                assert(out@ == out@ + Seq::<char>::empty());
            },
        }
        let key = trim(self.api_key.as_str());
        if !key.as_str().is_empty() {
            keys.insert(agent_id.to_owned(), key);
            out.append(" (");
            out.append(catalog.t_for(language, "chat.api_key_saved").as_str());
            out.append(")");
        }
        out
    }
}

/// How a preset is listed: its name, whether its model is open, and a mark where it needs no
/// key.
pub fn preset_option(preset: &ProviderPreset, language: Language, catalog: &Catalog) -> (r: String)
    ensures
        r@ == preset.name@ + " · "@ + catalog.text(language, if preset.open_source {
            "chat.preset_open_source"@
        } else {
            "chat.preset_closed_source"@
        }) + (if preset.requires_key {
            Seq::empty()
        } else {
            " · 🔓"@
        }),
{
    let mut out = preset.name.clone();
    out.append(" · ");
    if preset.open_source {
        out.append(catalog.t_for(language, "chat.preset_open_source").as_str());
    } else {
        out.append(catalog.t_for(language, "chat.preset_closed_source").as_str());
    }
    if !preset.requires_key {
        out.append(" · 🔓");
    } else {
        assert(out@ + Seq::<char>::empty() == out@);
    }
    out
}

/// What is told about the key of a preset.
pub fn preset_hint(preset: &ProviderPreset, language: Language, catalog: &Catalog) -> (r: String)
    ensures
        r@ == (if !preset.requires_key {
            catalog.text(language, "chat.preset_no_key_needed"@)
        } else if preset.key_url@.len() > 0 {
            catalog.text(language, "chat.preset_key_hint"@) + " "@ + preset.key_url@
        } else {
            Seq::empty()
        }),
{
    if !preset.requires_key {
        catalog.t_for(language, "chat.preset_no_key_needed")
    } else if !preset.key_url.as_str().is_empty() {
        let mut out = catalog.t_for(language, "chat.preset_key_hint");
        out.append(" ");
        out.append(preset.key_url.as_str());
        out
    } else {
        String::new()
    }
}

/// Whether presets may be fetched from the network, and what is told then: only with the user's
/// consent.
pub fn begin_preset_refresh(settings: &ChatSettings, language: Language, catalog: &Catalog) -> (r:
    Option<String>)
    ensures
        r is Some <==> settings.allow_remote_presets,
        r matches Some(status) ==> status@ == catalog.text(language, "chat.preset_refreshing"@),
{
    if settings.allow_remote_presets {
        Some(catalog.t_for(language, "chat.preset_refreshing"))
    } else {
        None
    }
}

/// Tells what fetching presets gave: how many there are now, or why it failed.
pub fn preset_refresh_status(
    outcome: &Result<usize, String>,
    language: Language,
    catalog: &Catalog,
) -> (r: String)
    ensures
        r@ == match outcome {
            Ok(count) => catalog.text(language, "chat.preset_refreshed"@) + " ("@ + decimal(
                *count as nat,
            ) + ")"@,
            Err(message) => catalog.text(language, "chat.preset_refresh_failed"@) + ": "@ + message@,
        },
{
    match outcome {
        Ok(count) => {
            let mut out = catalog.t_for(language, "chat.preset_refreshed");
            out.append(" (");
            out.append(decimal_text(*count as u64).as_str());
            out.append(")");
            out
        },
        Err(message) => {
            let mut out = catalog.t_for(language, "chat.preset_refresh_failed");
            out.append(": ");
            out.append(message.as_str());
            out
        },
    }
}

// ---------------------------------------------------------------------------------------------
// The command palette
// ---------------------------------------------------------------------------------------------

/// Where a command of the palette comes from.
#[derive(Clone, Copy, PartialEq, Eq, Structural, Debug)]
pub enum ChatCommandSource {
    History,
    AppCommand,
}

/// A command of the palette.
#[derive(Clone, Debug, PartialEq)]
pub struct ChatCommandEntry {
    pub command: String,
    pub source: ChatCommandSource,
}

/// What a command of the palette holds.
#[verifier::ext_equal]
pub struct CommandText {
    pub command: Seq<char>,
    pub source: ChatCommandSource,
}

/// What a list of commands holds.
pub open spec fn commands_view(entries: Seq<ChatCommandEntry>) -> Seq<CommandText> {
    entries.map_values(|e: ChatCommandEntry| CommandText { command: e.command@, source: e.source })
}

/// The name of a source.
pub fn source_label(source: ChatCommandSource) -> (r: &'static str)
    ensures
        r@ == match source {
            ChatCommandSource::History => "history"@,
            ChatCommandSource::AppCommand => "app"@,
        },
{
    match source {
        ChatCommandSource::History => "history",
        ChatCommandSource::AppCommand => "app",
    }
}

/// The commands of the application itself.
pub open spec fn app_commands() -> Seq<Seq<char>> {
    seq![
        "new connection"@,
        "toggle split"@,
        "toggle zoom"@,
        "toggle comparison"@,
        "toggle chat"@,
        "focus terminal"@,
    ]
}

fn app_command_list() -> (r: Vec<&'static str>)
    ensures
        r@.map_values(|s: &'static str| s@) == app_commands(),
{
    let all: Vec<&'static str> = vec![
        "new connection",
        "toggle split",
        "toggle zoom",
        "toggle comparison",
        "toggle chat",
        "focus terminal",
    ];
    assert(all@.map_values(|s: &'static str| s@) =~= app_commands());
    all
}

/// Holding a text.
pub open spec fn holds(query: Seq<char>) -> spec_fn(Seq<char>) -> bool {
    |s: Seq<char>| holds_text(s, query)
}

/// A query as it is compared: trimmed and in lower case.
pub open spec fn folded_query(query: Seq<char>) -> Seq<char> {
    ascii_lowercase(trimmed(query))
}

/// The application's commands that hold the query.
pub open spec fn builtin_matches(query: Seq<char>) -> Seq<CommandText> {
    app_commands().filter(holds(folded_query(query))).map_values(
        |c: Seq<char>| CommandText { command: c, source: ChatCommandSource::AppCommand },
    )
}

/// The application's commands that hold the query.
pub fn builtin_commands(query: &str) -> (r: Vec<ChatCommandEntry>)
    ensures
        commands_view(r@) == builtin_matches(query@),
{
    let q = to_ascii_lower(trim(query).as_str());
    let list = app_command_list();
    let mut out: Vec<ChatCommandEntry> = Vec::new();
    let ghost all = app_commands();
    let ghost keep = holds(folded_query(query@));
    let ghost f = |c: Seq<char>|
        CommandText { command: c, source: ChatCommandSource::AppCommand };
    proof {
        lemma_filter_none(all, keep);
        assert(commands_view(out@) == Seq::<Seq<char>>::empty().map_values(f));
    }
    for i in 0..list.len()
        invariant
            all == app_commands(),
            list@.map_values(|s: &'static str| s@) == all,
            keep == holds(folded_query(query@)),
            q@ == folded_query(query@),
            f == (|c: Seq<char>|
                CommandText { command: c, source: ChatCommandSource::AppCommand }),
            commands_view(out@) == all.take(i as int).filter(keep).map_values(f),
    {
        let ghost kept = all.take(i as int).filter(keep);
        proof {
            lemma_filter_step(all, i as int, keep);
            assert(list@.map_values(|s: &'static str| s@)[i as int] == list@[i as int]@);
        }
        if contains_text(list[i], q.as_str()) {
            let entry = ChatCommandEntry {
                command: list[i].to_owned(),
                source: ChatCommandSource::AppCommand,
            };
            let ghost before = out@;
            out.push(entry);
            proof {
                assert(commands_view(before.push(entry)) == commands_view(before).push(
                    f(all[i as int]),
                ));
                assert(kept.push(all[i as int]).map_values(f) == kept.map_values(f).push(
                    f(all[i as int]),
                ));
            }
        }
    }
    proof {
        lemma_filter_none(all, keep);
    }
    out
}

/// The largest number of commands that the palette shows.
pub const MAX_COMMANDS: usize = 50;

/// Whether a command is in the list.
pub open spec fn has_command(entries: Seq<CommandText>, command: Seq<char>) -> bool {
    exists|i: int| 0 <= i < entries.len() && (#[trigger] entries[i]).command == command
}

/// The list with the commands of the history behind it: each command once, and no more when the
/// list is full.
pub open spec fn merged(entries: Seq<CommandText>, history: Seq<Seq<char>>) -> Seq<CommandText>
    decreases history.len(),
{
    if history.len() == 0 {
        entries
    } else {
        let after = if has_command(entries, history[0]) {
            entries
        } else {
            entries.push(CommandText { command: history[0], source: ChatCommandSource::History })
        };
        if after.len() >= MAX_COMMANDS {
            after
        } else {
            merged(after, history.drop_first())
        }
    }
}

fn command_listed(entries: &Vec<ChatCommandEntry>, command: &str) -> (r: bool)
    ensures
        r == has_command(commands_view(entries@), command@),
{
    for i in 0..entries.len()
        invariant
            forall|j: int|
                0 <= j < i ==> (#[trigger] commands_view(entries@)[j]).command != command@,
    {
        assert(commands_view(entries@)[i as int].command == entries@[i as int].command@);
        if same(entries[i].command.as_str(), command) {
            return true;
        }
    }
    false
}

/// The panel's input and, while it starts with a slash, the palette.
#[derive(Clone, Debug, PartialEq)]
pub struct Palette {
    pub input: String,
    pub command_mode: bool,
    pub results: Vec<ChatCommandEntry>,
    pub selected: usize,
}

/// Whether an input opens the palette.
pub open spec fn opens_palette(input: Seq<char>) -> bool {
    input.len() > 0 && input[0] == '/'
}

fn without_slash(input: &str) -> (r: Option<String>)
    ensures
        match r {
            Some(query) => opens_palette(input@) && query@ == input@.skip(1),
            None => !opens_palette(input@),
        },
{
    let v = chars_of(input);
    if v.len() > 0 && v[0] == '/' {
        assert(v@.subrange(1, v@.len() as int) == v@.skip(1));
        Some(slice_of(&v, 1, v.len()))
    } else {
        None
    }
}

/// What the history is searched for: the query as it was typed, everything where it is blank.
pub fn history_prefix(query: &str) -> (r: String)
    ensures
        r@ == (if trimmed(query@).len() == 0 {
            Seq::empty()
        } else {
            query@
        }),
{
    if trim(query).as_str().is_empty() {
        String::new()
    } else {
        query.to_owned()
    }
}

impl Palette {
    /// The user has typed. An input that starts with a slash opens the palette with the
    /// application's commands; what stands behind the slash is handed back, to search the
    /// history for it.
    pub fn typed(&mut self, value: String) -> (r: Option<String>)
        ensures
            final(self).input == value,
            final(self).command_mode == opens_palette(value@),
            match r {
                Some(query) => opens_palette(value@) && query@ == value@.skip(1) && commands_view(
                    final(self).results@,
                ) == builtin_matches(value@.skip(1)) && final(self).selected == 0,
                None => !opens_palette(value@) && final(self).results@.len() == 0 && final(
                    self).selected == old(self).selected,
            },
    {
        let query = without_slash(value.as_str());
        self.command_mode = query.is_some();
        match &query {
            Some(text) => {
                self.results = builtin_commands(text.as_str());
                self.selected = 0;
            },
            None => {
                self.results = Vec::new();
            },
        }
        self.input = value;
        query
    }

    /// Whether an answer to this query is still wanted: the palette is open and the query is
    /// the same, but for case and the whitespace around it.
    pub open spec fn awaits(&self, query: Seq<char>) -> bool {
        self.command_mode && opens_palette(self.input@) && folded_query(self.input@.skip(1))
            == folded_query(query)
    }

    /// The history's commands for a query. They are dropped when the user has typed on or left
    /// the palette; else they are put behind the application's commands.
    pub fn history_found(&mut self, query: &str, history: &Vec<String>)
        ensures
            final(self).input == old(self).input,
            final(self).command_mode == old(self).command_mode,
            final(self).selected == old(self).selected,
            commands_view(final(self).results@) == (if old(self).awaits(query@) {
                merged(commands_view(old(self).results@), texts(history@))
            } else {
                commands_view(old(self).results@)
            }),
    {
        if !self.command_mode {
            return;
        }
        let current: String = match without_slash(self.input.as_str()) {
            Some(text) => text,
            None => {
                return;
            },
        };
        let wanted = to_ascii_lower(trim(current.as_str()).as_str());
        let asked = to_ascii_lower(trim(query).as_str());
        if !same(wanted.as_str(), asked.as_str()) {
            return;
        }
        let ghost all = texts(history@);
        let ghost goal = merged(commands_view(self.results@), all);
        let mut i: usize = 0;
        let mut full = false;
        assert(all.skip(0) == all);
        while i < history.len() && !full
            invariant
                i <= history@.len(),
                all == texts(history@),
                self.input == old(self).input,
                self.command_mode == old(self).command_mode,
                self.selected == old(self).selected,
                full ==> commands_view(self.results@) == goal,
                !full ==> merged(commands_view(self.results@), all.skip(i as int)) == goal,
            decreases history@.len() - i,
        {
            let ghost entries = commands_view(self.results@);
            let ghost rest = all.skip(i as int);
            assert(rest[0] == history@[i as int]@);
            assert(rest.drop_first() == all.skip(i + 1));
            if !command_listed(&self.results, history[i].as_str()) {
                let entry = ChatCommandEntry {
                    command: history[i].clone(),
                    source: ChatCommandSource::History,
                };
                let ghost before = self.results@;
                self.results.push(entry);
                assert(commands_view(before.push(entry)) == entries.push(
                    CommandText { command: rest[0], source: ChatCommandSource::History },
                ));
            }
            if self.results.len() >= MAX_COMMANDS {
                full = true;
            }
            i = i + 1;
        }
        assert(!full ==> all.skip(i as int).len() == 0);
    }

    /// Highlights the next command, behind the last one the first.
    pub fn down(&mut self)
        ensures
            final(self).input == old(self).input,
            final(self).command_mode == old(self).command_mode,
            final(self).results == old(self).results,
            final(self).selected == (if old(self).results@.len() > 0 {
                (old(self).selected + 1) % (old(self).results@.len() as int)
            } else {
                old(self).selected as int
            }),
    {
        let count: usize = self.results.len();
        if count > 0 {
            let at: usize = self.selected % count;
            proof {
                vstd::arithmetic::div_mod::lemma_add_mod_noop(
                    self.selected as int,
                    1,
                    count as int,
                );
                lemma_step_forward(at as int, count as int);
                if count > 1 {
                    vstd::arithmetic::div_mod::lemma_small_mod(1, count as nat);
                }
            }
            self.selected = if at == count - 1 {
                0
            } else {
                at + 1
            };
        }
    }

    /// Highlights the command before, before the first one the last.
    pub fn up(&mut self)
        ensures
            final(self).input == old(self).input,
            final(self).command_mode == old(self).command_mode,
            final(self).results == old(self).results,
            final(self).selected == (if old(self).results@.len() > 0 {
                (old(self).selected + old(self).results@.len() - 1) % (old(
                    self).results@.len() as int)
            } else {
                old(self).selected as int
            }),
    {
        let count: usize = self.results.len();
        if count > 0 {
            let at: usize = self.selected % count;
            proof {
                lemma_step_back(self.selected as int, count as int);
            }
            self.selected = if at == 0 {
                count - 1
            } else {
                at - 1
            };
        }
    }

    /// Takes the highlighted command, closes the palette and empties the input; nothing happens
    /// where none is highlighted. The button leaves the highlight where it is.
    pub fn take_selected(&mut self, by_button: bool) -> (r: Option<String>)
        ensures
            old(self).selected < old(self).results@.len() ==> {
                &&& r matches Some(command) && command@ == old(
                    self).results@[old(self).selected as int].command@
                &&& final(self).input@.len() == 0
                &&& !final(self).command_mode
                &&& final(self).results@.len() == 0
                &&& final(self).selected == (if by_button {
                    old(self).selected
                } else {
                    0
                })
            },
            old(self).selected >= old(self).results@.len() ==> r is None && *final(self) == *old(
                self),
    {
        if self.selected < self.results.len() {
            let command = self.results[self.selected].command.clone();
            self.input = String::new();
            self.command_mode = false;
            self.results = Vec::new();
            if !by_button {
                self.selected = 0;
            }
            Some(command)
        } else {
            None
        }
    }
}

proof fn lemma_step_forward(at: int, count: int)
    requires
        0 <= at < count,
    ensures
        (at + 1) % count == (if at == count - 1 {
            0
        } else {
            at + 1
        }),
{
    if at == count - 1 {
        vstd::arithmetic::div_mod::lemma_mod_self_0(count);
    } else {
        vstd::arithmetic::div_mod::lemma_small_mod((at + 1) as nat, count as nat);
    }
}

proof fn lemma_step_back(selected: int, count: int)
    requires
        0 <= selected,
        0 < count,
    ensures
        (selected + count - 1) % count == (if selected % count == 0 {
            count - 1
        } else {
            selected % count - 1
        }),
{
    let at = selected % count;
    vstd::arithmetic::div_mod::lemma_mod_bound(selected, count);
    vstd::arithmetic::div_mod::lemma_add_mod_noop(selected, count - 1, count);
    vstd::arithmetic::div_mod::lemma_small_mod((count - 1) as nat, count as nat);
    assert((selected + (count - 1)) % count == (at + (count - 1)) % count);
    if at == 0 {
    } else {
        vstd::arithmetic::div_mod::lemma_mod_add_multiples_vanish(at - 1, count);
        vstd::arithmetic::div_mod::lemma_small_mod((at - 1) as nat, count as nat);
        assert(at + (count - 1) == count + (at - 1));
    }
}

/// Going down and up again highlights the command that was highlighted.
pub proof fn law_down_then_up(selected: int, count: int)
    requires
        0 <= selected < count,
    ensures
        ((selected + 1) % count + count - 1) % count == selected,
        ((selected + count - 1) % count + 1) % count == selected,
{
    lemma_step_forward(selected, count);
    let next = (selected + 1) % count;
    lemma_step_back(next, count);
    vstd::arithmetic::div_mod::lemma_small_mod(next as nat, count as nat);
    vstd::arithmetic::div_mod::lemma_small_mod(selected as nat, count as nat);
    lemma_step_back(selected, count);
    let before = (selected + count - 1) % count;
    lemma_step_forward(before, count);
}

/// Whether no command is in the list twice.
pub open spec fn commands_unique(entries: Seq<CommandText>) -> bool {
    forall|i: int, j: int|
        0 <= i < j < entries.len() ==> (#[trigger] entries[i]).command != (
        #[trigger] entries[j]).command
}

/// Merging keeps what is listed in its place, lists no command twice, and takes a list below the
/// limit no further than to the limit.
pub proof fn law_merged(entries: Seq<CommandText>, history: Seq<Seq<char>>)
    ensures
        merged(entries, history).len() >= entries.len(),
        merged(entries, history).take(entries.len() as int) == entries,
        commands_unique(entries) ==> commands_unique(merged(entries, history)),
        entries.len() < MAX_COMMANDS ==> merged(entries, history).len() <= MAX_COMMANDS,
        forall|i: int|
            entries.len() <= i < merged(entries, history).len() ==> (#[trigger] merged(
                entries,
                history,
            )[i]).source == ChatCommandSource::History,
    decreases history.len(),
{
    if history.len() > 0 {
        let entry = CommandText { command: history[0], source: ChatCommandSource::History };
        let after = if has_command(entries, history[0]) {
            entries
        } else {
            entries.push(entry)
        };
        if !has_command(entries, history[0]) && commands_unique(entries) {
            assert forall|i: int, j: int| 0 <= i < j < after.len() implies (
            #[trigger] after[i]).command != (#[trigger] after[j]).command by {
                if j == entries.len() {
                    assert(after[i] == entries[i]);
                } else {
                    assert(after[i] == entries[i] && after[j] == entries[j]);
                }
            }
        }
        if after.len() < MAX_COMMANDS {
            let rest = history.drop_first();
            law_merged(after, rest);
            let all = merged(after, rest);
            assert(all.take(entries.len() as int) == entries) by {
                assert forall|i: int| 0 <= i < entries.len() implies all[i] == entries[i] by {
                    assert(all.take(after.len() as int)[i] == after[i]);
                }
            }
            assert forall|i: int| entries.len() <= i < all.len() implies (#[trigger] all[i]).source
                == ChatCommandSource::History by {
                if i < after.len() {
                    assert(all.take(after.len() as int)[i] == after[i]);
                }
            }
        } else {
            assert(after.take(entries.len() as int) == entries);
        }
    } else {
        assert(entries.take(entries.len() as int) == entries);
    }
}

// ---------------------------------------------------------------------------------------------
// The conversation
// ---------------------------------------------------------------------------------------------

/// Who says something.
#[derive(Clone, Copy, PartialEq, Eq, Structural, Debug)]
pub enum ChatRole {
    User,
    Assistant,
    System,
}

/// Something that was said, or a notice of the panel itself.
#[derive(Clone, Debug, PartialEq)]
pub struct ChatMessage {
    pub role: ChatRole,
    pub content: String,
}

/// Something that was said, as the agent is told.
#[derive(Clone, Debug, PartialEq)]
pub struct ChatTurn {
    pub by_user: bool,
    pub content: String,
}

/// What was said.
#[verifier::ext_equal]
pub struct MessageText {
    pub role: ChatRole,
    pub content: Seq<char>,
}

/// What a conversation holds.
pub open spec fn messages_view(messages: Seq<ChatMessage>) -> Seq<MessageText> {
    messages.map_values(|m: ChatMessage| MessageText { role: m.role, content: m.content@ })
}

/// What the agent is told holds.
pub open spec fn turns_view(turns: Seq<ChatTurn>) -> Seq<(bool, Seq<char>)> {
    turns.map_values(|t: ChatTurn| (t.by_user, t.content@))
}

/// What the agent is told of a conversation: what was said, but none of the panel's notices.
pub open spec fn told(messages: Seq<MessageText>) -> Seq<(bool, Seq<char>)>
    decreases messages.len(),
{
    if messages.len() == 0 {
        Seq::empty()
    } else {
        let before = told(messages.drop_last());
        match messages.last().role {
            ChatRole::User => before.push((true, messages.last().content)),
            ChatRole::Assistant => before.push((false, messages.last().content)),
            ChatRole::System => before,
        }
    }
}

/// The protocol of a request.
#[derive(Clone, Copy, PartialEq, Eq, Structural, Debug)]
pub enum ChatProtocol {
    OpenAiCompatible,
    Anthropic,
}

/// A request to an agent.
#[derive(Clone, Debug, PartialEq)]
pub struct ChatRequest {
    pub protocol: ChatProtocol,
    pub base_url: String,
    pub api_key: String,
    pub model: String,
    pub system_prompt: String,
    pub turns: Vec<ChatTurn>,
}

/// The conversation and what the panel tells about it.
#[derive(Clone, Debug, PartialEq)]
pub struct Conversation {
    pub messages: Vec<ChatMessage>,
    pub status: Option<String>,
    pub in_flight: bool,
}

/// What becomes of an input that is to be sent.
#[derive(Clone, Copy, PartialEq, Eq, Structural, Debug)]
pub enum SendCheck {
    Blank,
    InFlight,
    NoAgent,
    NeedKey,
    NeedModel,
    Ready,
}

/// Whether an agent needs a key: one that runs on this machine needs none.
pub open spec fn needs_key(agent: AgentConfig) -> bool {
    agent.provider != ChatAgentProvider::Local && !is_loopback(agent.base_url@)
}

/// The key that is held for an agent, empty where there is none.
pub open spec fn held_key(keys: Seq<(String, String)>, agent: AgentConfig) -> Seq<char> {
    match key_of(keys, agent.id@) {
        Some(key) => key,
        None => Seq::empty(),
    }
}

/// What becomes of an input that is to be sent.
pub open spec fn send_check(
    input: Seq<char>,
    in_flight: bool,
    agent: Option<AgentConfig>,
    keys: Seq<(String, String)>,
) -> SendCheck {
    if trimmed(input).len() == 0 {
        SendCheck::Blank
    } else if in_flight {
        SendCheck::InFlight
    } else {
        match agent {
            None => SendCheck::NoAgent,
            Some(agent) => if needs_key(agent) && held_key(keys, agent).len() == 0 {
                SendCheck::NeedKey
            } else if trimmed(agent.model@).len() == 0 {
                SendCheck::NeedModel
            } else {
                SendCheck::Ready
            },
        }
    }
}

fn turns_of(messages: &Vec<ChatMessage>) -> (r: Vec<ChatTurn>)
    ensures
        turns_view(r@) == told(messages_view(messages@)),
{
    let mut out: Vec<ChatTurn> = Vec::new();
    let ghost all = messages_view(messages@);
    assert(turns_view(out@) == told(all.take(0)));
    for i in 0..messages.len()
        invariant
            all == messages_view(messages@),
            turns_view(out@) == told(all.take(i as int)),
    {
        assert(all.take(i + 1).drop_last() == all.take(i as int));
        assert(all.take(i + 1).last() == (MessageText {
            role: messages@[i as int].role,
            content: messages@[i as int].content@,
        }));
        let ghost before = out@;
        match messages[i].role {
            ChatRole::User => {
                let turn = ChatTurn { by_user: true, content: messages[i].content.clone() };
                out.push(turn);
                assert(turns_view(before.push(turn)) == turns_view(before).push(
                    (true, turn.content@),
                ));
            },
            ChatRole::Assistant => {
                let turn = ChatTurn { by_user: false, content: messages[i].content.clone() };
                out.push(turn);
                assert(turns_view(before.push(turn)) == turns_view(before).push(
                    (false, turn.content@),
                ));
            },
            ChatRole::System => {},
        }
    }
    assert(all.take(messages@.len() as int) == all);
    out
}

impl Conversation {
    fn say(&mut self, role: ChatRole, content: String)
        ensures
            messages_view(final(self).messages@) == messages_view(old(self).messages@).push(
                MessageText { role, content: content@ },
            ),
            final(self).status == old(self).status,
            final(self).in_flight == old(self).in_flight,
    {
        let message = ChatMessage { role, content };
        let ghost before = self.messages@;
        self.messages.push(message);
        assert(messages_view(before.push(message)) == messages_view(before).push(
            MessageText { role, content: content@ },
        ));
    }

    /// Sends the input to the agent. Where something is missing it is told, and the input
    /// stays; else the input becomes part of the conversation, the input field is emptied, and
    /// the request is handed back.
    pub fn send(
        &mut self,
        palette: &mut Palette,
        agent: Option<&AgentConfig>,
        keys: &ApiKeys,
        language: Language,
        catalog: &Catalog,
    ) -> (r: Option<ChatRequest>)
        ensures
            final(palette).command_mode == old(palette).command_mode,
            final(palette).results == old(palette).results,
            final(palette).selected == old(palette).selected,
            ({
                let check = send_check(
                    old(palette).input@,
                    old(self).in_flight,
                    match agent {
                        Some(agent) => Some(*agent),
                        None => None,
                    },
                    keys.keys@,
                );
                let before = messages_view(old(self).messages@);
                let after = messages_view(final(self).messages@);
                &&& r is Some <==> check == SendCheck::Ready
                &&& check != SendCheck::Ready ==> final(palette).input == old(palette).input
                    && final(self).in_flight == old(self).in_flight
                &&& check == SendCheck::Blank ==> after == before && final(self).status == old(
                    self).status
                &&& check == SendCheck::InFlight ==> after == before && opt_text(
                    final(self).status,
                ) == Some(catalog.text(language, "chat.request_in_flight"@))
                &&& check == SendCheck::NoAgent ==> after == before && opt_text(final(self).status)
                    == Some(catalog.text(language, "chat.no_agent"@))
                &&& check == SendCheck::NeedKey ==> final(self).status is None && after
                    == before.push(
                    MessageText {
                        role: ChatRole::System,
                        content: catalog.text(language, "chat.need_api_key"@),
                    },
                )
                &&& check == SendCheck::NeedModel ==> final(self).status is None && after
                    == before.push(
                    MessageText {
                        role: ChatRole::System,
                        content: catalog.text(language, "chat.need_model"@),
                    },
                )
                &&& r matches Some(request) ==> {
                    &&& final(palette).input@.len() == 0
                    &&& final(self).in_flight
                    &&& opt_text(final(self).status) == Some(
                        catalog.text(language, "chat.thinking"@),
                    )
                    &&& after == before.push(
                        MessageText { role: ChatRole::User, content: trimmed(old(palette).input@) },
                    )
                    &&& request.protocol == (if agent->0.provider == ChatAgentProvider::Anthropic {
                        ChatProtocol::Anthropic
                    } else {
                        ChatProtocol::OpenAiCompatible
                    })
                    &&& request.base_url == agent->0.base_url
                    &&& request.api_key@ == held_key(keys.keys@, *(agent->0))
                    &&& request.model == agent->0.model
                    &&& request.system_prompt == agent->0.system_prompt
                    &&& turns_view(request.turns@) == told(after)
                }
            }),
    {
        let text = trim(palette.input.as_str());
        if text.as_str().is_empty() {
            return None;
        }
        if self.in_flight {
            self.status = Some(catalog.t_for(language, "chat.request_in_flight"));
            return None;
        }
        match agent {
            None => {
                self.status = Some(catalog.t_for(language, "chat.no_agent"));
                None
            },
            Some(agent) => {
                let api_key = keys.get(agent.id.as_str());
                let key_required = agent.provider != ChatAgentProvider::Local
                    && !is_loopback_base_url(agent.base_url.as_str());
                if key_required && api_key.as_str().is_empty() {
                    self.say(ChatRole::System, catalog.t_for(language, "chat.need_api_key"));
                    self.status = None;
                    return None;
                }
                if trim(agent.model.as_str()).as_str().is_empty() {
                    self.say(ChatRole::System, catalog.t_for(language, "chat.need_model"));
                    self.status = None;
                    return None;
                }
                self.say(ChatRole::User, text);
                palette.input = String::new();
                self.status = Some(catalog.t_for(language, "chat.thinking"));
                self.in_flight = true;
                let protocol = if agent.provider == ChatAgentProvider::Anthropic {
                    ChatProtocol::Anthropic
                } else {
                    ChatProtocol::OpenAiCompatible
                };
                Some(
                    ChatRequest {
                        protocol,
                        base_url: agent.base_url.clone(),
                        api_key,
                        model: agent.model.clone(),
                        system_prompt: agent.system_prompt.clone(),
                        turns: turns_of(&self.messages),
                    },
                )
            },
        }
    }

    /// The agent's answer, or why there is none. Either way the next request may be sent.
    pub fn answered(
        &mut self,
        result: Result<String, String>,
        language: Language,
        catalog: &Catalog,
    )
        ensures
            !final(self).in_flight,
            final(self).status is None,
            messages_view(final(self).messages@) == messages_view(old(self).messages@).push(
                match result {
                    Ok(reply) => MessageText {
                        role: ChatRole::Assistant,
                        content: if trimmed(reply@).len() == 0 {
                            "(empty response)"@
                        } else {
                            reply@
                        },
                    },
                    Err(error) => MessageText {
                        role: ChatRole::System,
                        content: catalog.text(language, "chat.request_failed"@) + ": "@ + error@,
                    },
                },
            ),
    {
        self.in_flight = false;
        match result {
            Ok(reply) => {
                if trim(reply.as_str()).as_str().is_empty() {
                    self.say(ChatRole::Assistant, "(empty response)".to_owned());
                } else {
                    self.say(ChatRole::Assistant, reply);
                }
            },
            Err(error) => {
                let mut content = catalog.t_for(language, "chat.request_failed");
                content.append(": ");
                content.append(error.as_str());
                self.say(ChatRole::System, content);
            },
        }
        self.status = None;
    }
}

/// The panel's own notices never reach the agent.
pub proof fn law_notices_are_not_told(messages: Seq<MessageText>, content: Seq<char>)
    ensures
        told(messages.push(MessageText { role: ChatRole::System, content })) == told(messages),
{
    let all = messages.push(MessageText { role: ChatRole::System, content });
    assert(all.drop_last() == messages);
}

/// How a message is shown: where it stands, its background, its colour, and whether it is in
/// italics.
pub fn bubble_style(role: ChatRole) -> (r: (&'static str, &'static str, &'static str, bool))
    ensures
        match role {
            ChatRole::User => r.0@ == "flex-end"@ && r.1@ == "var(--skin-accent)"@ && r.2@
                == "var(--skin-bg)"@ && !r.3,
            ChatRole::Assistant => r.0@ == "flex-start"@ && r.1@ == "var(--skin-bg)"@ && r.2@
                == "var(--skin-text)"@ && !r.3,
            ChatRole::System => r.0@ == "center"@ && r.1@ == "transparent"@ && r.2@
                == "var(--skin-text-muted)"@ && r.3,
        },
{
    match role {
        ChatRole::User => ("flex-end", "var(--skin-accent)", "var(--skin-bg)", false),
        ChatRole::Assistant => ("flex-start", "var(--skin-bg)", "var(--skin-text)", false),
        ChatRole::System => ("center", "transparent", "var(--skin-text-muted)", true),
    }
}

// ---------------------------------------------------------------------------------------------
// Keys of the input field
// ---------------------------------------------------------------------------------------------

/// A key in the input field.
#[derive(Clone, Copy, PartialEq, Eq, Structural, Debug)]
pub enum ChatKey {
    Tab,
    Escape,
    ArrowDown,
    ArrowUp,
    Enter,
    Other,
}

/// What a key leads to.
#[derive(Clone, Debug, PartialEq)]
pub enum ChatAction {
    Nothing,
    /// The key is used up without further effect.
    Handled,
    /// The focus goes to the terminal.
    FocusTerminal,
    /// The command is put into the terminal, which gets the focus.
    Insert(String),
    /// The input is sent to the agent.
    Send,
}

impl Palette {
    /// A key in the input field. Tab and Escape lead to the terminal; in the palette the arrows
    /// choose a command and Enter takes it; else Enter sends, unless Shift is held.
    pub fn key(&mut self, key: ChatKey, shift: bool) -> (r: ChatAction)
        ensures
            key == ChatKey::Tab || key == ChatKey::Escape ==> r is FocusTerminal && *final(self)
                == *old(self),
            !(key == ChatKey::Tab || key == ChatKey::Escape) && !old(self).command_mode ==> *final(
                self) == *old(self) && (r is Send <==> key == ChatKey::Enter && !shift) && (
            r is Send || r is Nothing),
            old(self).command_mode && key == ChatKey::Other ==> r is Nothing && *final(self)
                == *old(self),
            old(self).command_mode && (key == ChatKey::ArrowDown || key == ChatKey::ArrowUp) ==> {
                let count = old(self).results@.len() as int;
                &&& r is Handled
                &&& final(self).input == old(self).input
                &&& final(self).command_mode
                &&& final(self).results == old(self).results
                &&& final(self).selected == (if count == 0 {
                    old(self).selected as int
                } else if key == ChatKey::ArrowDown {
                    (old(self).selected + 1) % count
                } else {
                    (old(self).selected + count - 1) % count
                })
            },
            old(self).command_mode && key == ChatKey::Enter ==> if old(self).selected < old(
                self).results@.len() {
                &&& r matches ChatAction::Insert(command) && command@ == old(
                    self).results@[old(self).selected as int].command@
                &&& final(self).input@.len() == 0
                &&& !final(self).command_mode
                &&& final(self).results@.len() == 0
                &&& final(self).selected == 0
            } else {
                r is FocusTerminal && *final(self) == *old(self)
            },
    {
        match key {
            ChatKey::Tab => ChatAction::FocusTerminal,
            ChatKey::Escape => ChatAction::FocusTerminal,
            ChatKey::ArrowDown => {
                if self.command_mode {
                    self.down();
                    ChatAction::Handled
                } else {
                    ChatAction::Nothing
                }
            },
            ChatKey::ArrowUp => {
                if self.command_mode {
                    self.up();
                    ChatAction::Handled
                } else {
                    ChatAction::Nothing
                }
            },
            ChatKey::Enter => {
                if self.command_mode {
                    match self.take_selected(false) {
                        Some(command) => ChatAction::Insert(command),
                        None => ChatAction::FocusTerminal,
                    }
                } else if shift {
                    ChatAction::Nothing
                } else {
                    ChatAction::Send
                }
            },
            ChatKey::Other => ChatAction::Nothing,
        }
    }

    /// The send button: in the palette it takes the highlighted command, else it sends.
    pub fn send_clicked(&mut self) -> (r: ChatAction)
        ensures
            !old(self).command_mode ==> r is Send && *final(self) == *old(self),
            old(self).command_mode ==> if old(self).selected < old(self).results@.len() {
                &&& r matches ChatAction::Insert(command) && command@ == old(
                    self).results@[old(self).selected as int].command@
                &&& final(self).input@.len() == 0
                &&& !final(self).command_mode
                &&& final(self).results@.len() == 0
                &&& final(self).selected == old(self).selected
            } else {
                r is FocusTerminal && *final(self) == *old(self)
            },
    {
        if self.command_mode {
            match self.take_selected(true) {
                Some(command) => ChatAction::Insert(command),
                None => ChatAction::FocusTerminal,
            }
        } else {
            ChatAction::Send
        }
    }
}

// ---------------------------------------------------------------------------------------------
// Page scripts
// ---------------------------------------------------------------------------------------------

/// How a character is written inside a quoted text of a page script.
pub open spec fn script_char(c: char) -> Seq<char> {
    if c == '\\' {
        seq!['\\', '\\']
    } else if c == '\'' {
        seq!['\\', '\'']
    } else {
        seq![c]
    }
}

/// The rewriting of characters inside a quoted text of a page script.
pub open spec fn script_chars() -> spec_fn(char) -> Seq<char> {
    |c: char| script_char(c)
}

/// A text as it is written inside a quoted text of a page script.
pub open spec fn script_escaped(s: Seq<char>) -> Seq<char> {
    flat_map(s, script_chars())
}

fn script_escape(value: &str) -> (r: String)
    ensures
        r@ == script_escaped(value@),
{
    let v = chars_of(value);
    let mut out = String::new();
    for i in 0..v.len()
        invariant
            v@ == value@,
            out@ == script_escaped(value@.take(i as int)),
    {
        let c = v[i];
        proof {
            lemma_flat_map_push(value@.take(i as int), c, script_chars());
            assert(value@.take(i as int).push(c) == value@.take(i + 1));
        }
        let ghost before = out@;
        if c == '\\' {
            out.push('\\');
            out.push('\\');
        } else if c == '\'' {
            out.push('\\');
            out.push('\'');
        } else {
            out.push(c);
        }
        assert(out@ == before + script_char(c));
    }
    assert(value@.take(v@.len() as int) == value@);
    out
}

/// Finds the terminal's input field: what stands before the session.
pub const INSERT_OPEN: &'static str =
    "(function(){var el=document.getElementById('terminal-input-";

/// Focuses the field and sets its value: what stands before the command.
pub const INSERT_SET: &'static str =
    "');if(!el){return;}el.focus();var setter=Object.getOwnPropertyDescriptor(window.HTMLInputElement.prototype,'value')||Object.getOwnPropertyDescriptor(window.HTMLTextAreaElement.prototype,'value');if(setter&&setter.set){setter.set.call(el,'";

/// Sets the value where the page has no setter.
pub const INSERT_ELSE: &'static str = "');}else{el.value='";

/// Tells the page that the value has changed.
pub const INSERT_END: &'static str =
    "';}el.dispatchEvent(new Event('input',{bubbles:true}));})()";

/// The session whose terminal takes a command: the focused one, else the active one.
pub fn command_session(focused: Option<String>, active: Option<String>) -> (r: Option<String>)
    ensures
        r == (if focused is Some {
            focused
        } else {
            active
        }),
{
    match focused {
        Some(id) => Some(id),
        None => active,
    }
}

/// The page script that puts a command into a terminal's input field, where the user can look
/// at it before it runs.
pub fn insert_command_script(session_id: &str, command: &str) -> (r: String)
    ensures
        r@ == INSERT_OPEN@ + session_id@ + INSERT_SET@ + script_escaped(command@) + INSERT_ELSE@
            + script_escaped(command@) + INSERT_END@,
{
    let escaped = script_escape(command);
    let mut out = String::from_str(INSERT_OPEN);
    out.append(session_id);
    out.append(INSERT_SET);
    out.append(escaped.as_str());
    out.append(INSERT_ELSE);
    out.append(escaped.as_str());
    out.append(INSERT_END);
    out
}

/// A reader of a quoted text of a page script: whether it has just read a backslash, whether
/// the text has ended (a line break ends it too), and what it has read.
pub struct ScriptReader {
    pub escaped: bool,
    pub ended: bool,
    pub text: Seq<char>,
}

impl ScriptReader {
    /// The reader after one more character, for texts without escapes but those of the backslash
    /// and the quote.
    pub open spec fn step(self, c: char) -> ScriptReader {
        if self.ended {
            self
        } else if self.escaped {
            ScriptReader { escaped: false, ended: false, text: self.text.push(c) }
        } else if c == '\\' {
            ScriptReader { escaped: true, ended: false, text: self.text }
        } else if c == '\'' || c == '\n' || c == '\r' {
            ScriptReader { escaped: false, ended: true, text: self.text }
        } else {
            ScriptReader { escaped: false, ended: false, text: self.text.push(c) }
        }
    }
}

/// A reader that has read `s` from the start of a quoted text.
pub open spec fn script_read(s: Seq<char>) -> ScriptReader
    decreases s.len(),
{
    if s.len() == 0 {
        ScriptReader { escaped: false, ended: false, text: Seq::empty() }
    } else {
        script_read(s.drop_last()).step(s.last())
    }
}

proof fn lemma_script_read_push(s: Seq<char>, c: char)
    ensures
        script_read(s.push(c)) == script_read(s).step(c),
{
    assert(s.push(c).drop_last() == s);
}

/// An escaped command of one line stays inside its quotes, and is read as the command itself.
pub proof fn law_script_reads_back(s: Seq<char>)
    requires
        !s.contains('\n'),
        !s.contains('\r'),
    ensures
        script_read(script_escaped(s)) == (ScriptReader { escaped: false, ended: false, text: s }),
    decreases s.len(),
{
    if s.len() == 0 {
        assert(s == Seq::<char>::empty());
    } else {
        assert forall|c: char| s.drop_last().contains(c) implies s.contains(c) by {
            let i = choose|i: int| 0 <= i < s.drop_last().len() && s.drop_last()[i] == c;
            assert(s[i] == c);
        }
        assert(s.contains(s.last())) by {
            assert(s[s.len() - 1] == s.last());
        }
        law_script_reads_back(s.drop_last());
        let before = script_escaped(s.drop_last());
        let c = s.last();
        let piece = script_char(c);
        assert(s.drop_last().push(c) == s);
        assert(script_escaped(s) == before + piece);
        if piece.len() == 2 {
            let one = before.push(piece[0]);
            let two = one.push(piece[1]);
            assert(before + piece == two);
            lemma_script_read_push(before, piece[0]);
            lemma_script_read_push(one, piece[1]);
        } else {
            assert(before + piece == before.push(c));
            lemma_script_read_push(before, c);
        }
    }
}

/// What the page reports while the panel is dragged: the pointer's position, as two texts, and
/// whether the button was released.
#[derive(Clone, Debug, PartialEq)]
pub struct DragReport {
    pub x: String,
    pub y: String,
    pub done: bool,
}

/// The coordinates in a report of the page: what stands before and behind the first comma, in
/// front of the first bar.
pub open spec fn reported_coordinates(raw: Seq<char>) -> Option<(Seq<char>, Seq<char>)> {
    match cut_once(raw, '|') {
        None => None,
        Some(parts) => cut_once(parts.0, ','),
    }
}

/// The coordinates in a report of the page, as they are written.
pub fn reported_position(raw: &str) -> (r: Option<(String, String)>)
    ensures
        match r {
            Some(position) => reported_coordinates(raw@) == Some((position.0@, position.1@)),
            None => reported_coordinates(raw@) is None,
        },
{
    match split_once(raw, '|') {
        None => None,
        Some(parts) => split_once(parts.0.as_str(), ','),
    }
}

/// Reads a report of the page: two numbers with a comma, a bar, and a mark. `are_numbers` tells
/// whether both coordinates read as numbers; where they do not there is no report.
pub fn parse_drag_report(raw: &str, are_numbers: bool) -> (r: Option<DragReport>)
    ensures
        r is Some <==> are_numbers && reported_coordinates(raw@) is Some,
        r matches Some(report) ==> reported_coordinates(raw@) == Some((report.x@, report.y@))
            && report.done == ((cut_once(raw@, '|')->0).1 == "1"@),
{
    if !are_numbers {
        return None;
    }
    match split_once(raw, '|') {
        None => None,
        Some(parts) => match split_once(parts.0.as_str(), ',') {
            None => None,
            Some(position) => {
                let done = same(parts.1.as_str(), "1");
                Some(DragReport { x: position.0, y: position.1, done })
            },
        },
    }
}

/// Adding a message to a conversation adds one turn with its content at the end of what the agent
/// is told, marked as the user's when the user said it and as not the user's when the assistant
/// did; a notice of the panel adds none.
pub proof fn law_messages_are_told(messages: Seq<MessageText>, message: MessageText)
    ensures
        told(Seq::empty()) == Seq::<(bool, Seq<char>)>::empty(),
        message.role == ChatRole::User ==> told(messages.push(message)) == told(messages).push(
            (true, message.content),
        ),
        message.role == ChatRole::Assistant ==> told(messages.push(message)) == told(
            messages,
        ).push((false, message.content)),
        message.role == ChatRole::System ==> told(messages.push(message)) == told(messages),
{
    assert(messages.push(message).drop_last() == messages);
}

/// For each turn that is told there is a message of that content, whose role is the user's if and
/// only if the turn is marked as the user's, and the assistant's otherwise.
pub proof fn law_turns_were_said(messages: Seq<MessageText>, i: int)
    requires
        0 <= i < told(messages).len(),
    ensures
        exists|k: int|
            0 <= k < messages.len() && (#[trigger] messages[k]).content == told(messages)[i].1
                && messages[k].role == (if told(messages)[i].0 {
                ChatRole::User
            } else {
                ChatRole::Assistant
            }),
    decreases messages.len(),
{
    let before = messages.drop_last();
    let last = messages.len() - 1;
    if i < told(before).len() {
        law_turns_were_said(before, i);
        let k = choose|k: int|
            0 <= k < before.len() && (#[trigger] before[k]).content == told(before)[i].1
                && before[k].role == (if told(before)[i].0 {
                ChatRole::User
            } else {
                ChatRole::Assistant
            });
        assert(messages[k] == before[k]);
    } else {
        assert(messages[last] == messages.last());
    }
}

/// Everything that the user or the assistant said is told, in its own words and under its own
/// mark, and each in the order in which it was said.
pub proof fn law_all_that_was_said_is_told(messages: Seq<MessageText>, k: int)
    requires
        0 <= k < messages.len(),
        messages[k].role != ChatRole::System,
    ensures
        0 <= told(messages.take(k)).len() < told(messages).len(),
        told(messages)[told(messages.take(k)).len() as int].1 == messages[k].content,
        told(messages)[told(messages.take(k)).len() as int].0 <==> messages[k].role
            == ChatRole::User,
    decreases messages.len(),
{
    let before = messages.drop_last();
    if k < messages.len() - 1 {
        law_all_that_was_said_is_told(before, k);
        assert(before.take(k) == messages.take(k));
    } else {
        assert(messages.take(k) == before);
    }
}

/// The places of the panel follow one another as they are listed, and each mode of the proxy is
/// selected by its own name.
pub proof fn law_places_and_modes(dock: ChatDock, mode: ChatProxyMode, value: Seq<char>)
    ensures
        next_place(dock) == ChatDock::Right <==> dock == ChatDock::Floating,
        next_place(dock) == ChatDock::Bottom <==> dock == ChatDock::Right,
        next_place(dock) == ChatDock::Floating <==> dock == ChatDock::Bottom,
        mode_from(value) == ChatProxyMode::Off <==> value == "off"@,
        mode_from(value) == ChatProxyMode::Clash <==> value == "clash"@,
        mode_from(value) == ChatProxyMode::Custom <==> value == "custom"@,
        mode == ChatProxyMode::System ==> mode_value(mode) == "system"@,
        mode == ChatProxyMode::Off ==> mode_value(mode) == "off"@,
        mode == ChatProxyMode::Clash ==> mode_value(mode) == "clash"@,
        mode == ChatProxyMode::Custom ==> mode_value(mode) == "custom"@,
{
    reveal_strlit("off");
    reveal_strlit("clash");
    reveal_strlit("custom");
    assert("off"@.len() == 3 && "clash"@.len() == 5 && "custom"@.len() == 6);
}

/// A request goes one way only: the system's, directly, or over the proxy that was found or
/// entered.
pub proof fn law_request_goes_one_way(
    settings: ChatSettings,
    clash: Option<String>,
    selection: ProxySelection,
)
    requires
        resolves_to(settings, clash, selection),
    ensures
        selection is Disabled <==> settings.proxy_mode == ChatProxyMode::Off || (settings.proxy_mode
            == ChatProxyMode::Clash && clash is None),
        selection is System <==> settings.proxy_mode == ChatProxyMode::System || (
        settings.proxy_mode == ChatProxyMode::Custom && trimmed(settings.proxy_url@).len() == 0),
        selection matches ProxySelection::Url(url) ==> {
            ||| settings.proxy_mode == ChatProxyMode::Clash && clash is Some && url@ == (clash->0)@
            ||| settings.proxy_mode == ChatProxyMode::Custom && url@ == trimmed(settings.proxy_url@)
        },
{
}

/// An address without capital letters and without whitespace around it is one of this machine
/// exactly when it names the machine by its number, its name or its number in version six; case
/// and the whitespace around an address make no difference.
pub proof fn law_local_addresses(url: Seq<char>, other: Seq<char>)
    ensures
        (forall|i: int| 0 <= i < url.len() ==> !('A' <= #[trigger] url[i] <= 'Z')) && trimmed(url)
            == url ==> (is_loopback(url) <==> holds_text(url, "://127.0.0.1"@) || holds_text(
            url,
            "://localhost"@,
        ) || holds_text(url, "://[::1]"@)),
        ascii_lowercase(trimmed(url)) == ascii_lowercase(trimmed(other)) ==> is_loopback(url)
            == is_loopback(other),
{
    if forall|i: int| 0 <= i < url.len() ==> !('A' <= #[trigger] url[i] <= 'Z') {
        assert(ascii_lowercase(url) == url);
    }
}

/// The agent of an id is the first one that has it; the active agent is the chosen one where it
/// is there, else the first of all.
pub proof fn law_agent_of_an_id(agents: Seq<AgentConfig>, id: Seq<char>, at: int)
    ensures
        agent_at(agents, id) == Some(at) <==> 0 <= at < agents.len() && agents[at].id@ == id && (
        forall|j: int| 0 <= j < at ==> (#[trigger] agents[j]).id@ != id),
        agent_at(agents, id) is None <==> forall|j: int|
            0 <= j < agents.len() ==> (#[trigger] agents[j]).id@ != id,
    decreases agents.len(),
{
    if agents.len() > 0 {
        let before = agents.drop_last();
        let last = agents.len() - 1;
        assert forall|j: int| 0 <= j < before.len() implies #[trigger] before[j] == agents[j] by {}
        law_agent_of_an_id(before, id, at);
        if agent_at(before, id) is Some {
            let p = agent_at(before, id)->0;
            law_agent_of_an_id(before, id, p);
            assert(agents[p].id@ == id);
            assert forall|j: int| 0 <= j < p implies (#[trigger] agents[j]).id@ != id by {
                assert(before[j].id@ != id);
            }
            if 0 <= at < agents.len() && agents[at].id@ == id && (forall|j: int|
                0 <= j < at ==> (#[trigger] agents[j]).id@ != id) {
                if p < at {
                    assert(agents[p].id@ != id);
                }
                assert(at <= p);
            }
        } else {
            assert forall|j: int| 0 <= j < last implies (#[trigger] agents[j]).id@ != id by {
                assert(before[j].id@ != id);
            }
        }
    }
}

/// The active agent is the chosen one where there is one of that id, else the first of all;
/// without agents there is none.
pub proof fn law_active_agent(settings: ChatSettings, id: String, at: int)
    ensures
        settings.agents@.len() == 0 ==> settings.active_at() is None,
        settings.active_agent_id is None && settings.agents@.len() > 0 ==> settings.active_at()
            == Some(0int),
        settings.active_agent_id == Some(id) && settings.agents@.len() > 0 && (forall|j: int|
            0 <= j < settings.agents@.len() ==> (#[trigger] settings.agents@[j]).id@ != id@)
            ==> settings.active_at() == Some(0int),
        settings.active_agent_id == Some(id) && 0 <= at < settings.agents@.len()
            && settings.agents@[at].id@ == id@ && (forall|j: int|
            0 <= j < at ==> (#[trigger] settings.agents@[j]).id@ != id@) ==> settings.active_at()
            == Some(at),
{
    law_agent_of_an_id(settings.agents@, id@, at);
}

/// A key that was added last is the one that is held; without one of the agent there is none.
pub proof fn law_last_key_is_held(
    keys: Seq<(String, String)>,
    pair: (String, String),
    agent_id: Seq<char>,
)
    ensures
        pair.0@ == agent_id ==> key_of(keys.push(pair), agent_id) == Some(pair.1@),
        pair.0@ != agent_id ==> key_of(keys.push(pair), agent_id) == key_of(keys, agent_id),
        key_of(Seq::empty(), agent_id) is None,
{
    assert(keys.push(pair).drop_last() == keys);
}

/// The palette offers a command of the application exactly when it is one of the six and holds
/// the query, whatever its case and the whitespace around it.
pub proof fn law_commands_that_hold_the_query(query: Seq<char>, command: Seq<char>)
    ensures
        has_command(builtin_matches(query), command) <==> (command == "new connection"@ || command
            == "toggle split"@ || command == "toggle zoom"@ || command == "toggle comparison"@
            || command == "toggle chat"@ || command == "focus terminal"@) && holds_text(
            command,
            ascii_lowercase(trimmed(query)),
        ),
        forall|i: int|
            0 <= i < builtin_matches(query).len() ==> (#[trigger] builtin_matches(query)[i]).source
                == ChatCommandSource::AppCommand,
{
    broadcast use vstd::seq_lib::group_filter_ensures;

    let keep = holds(folded_query(query));
    let kept = app_commands().filter(keep);
    let all = builtin_matches(query);
    if has_command(all, command) {
        let i = choose|i: int| 0 <= i < all.len() && (#[trigger] all[i]).command == command;
        assert(kept[i] == command);
        crate::text::lemma_filtered_is_listed(app_commands(), keep, i);
        let k = choose|k: int| 0 <= k < app_commands().len() && app_commands()[k] == command;
    }
    if app_commands().contains(command) && holds_text(command, folded_query(query)) {
        let k = choose|k: int| 0 <= k < app_commands().len() && app_commands()[k] == command;
        assert(keep(app_commands()[k]));
        assert(kept.contains(command));
        let i = choose|i: int| 0 <= i < kept.len() && kept[i] == command;
        assert(all[i].command == command);
    }
    assert(app_commands()[0] == "new connection"@);
    assert(app_commands()[1] == "toggle split"@);
    assert(app_commands()[2] == "toggle zoom"@);
    assert(app_commands()[3] == "toggle comparison"@);
    assert(app_commands()[4] == "toggle chat"@);
    assert(app_commands()[5] == "focus terminal"@);
}

/// As long as the list is not full, every command of the history is listed; what is added comes
/// from the history; and a list that started below fifty commands never holds more than fifty.
pub proof fn law_history_is_listed(entries: Seq<CommandText>, history: Seq<Seq<char>>)
    ensures
        merged(entries, history).len() < 50 ==> forall|k: int|
            0 <= k < history.len() ==> has_command(merged(entries, history), #[trigger] history[k]),
        forall|i: int|
            entries.len() <= i < merged(entries, history).len() ==> history.contains(
                (#[trigger] merged(entries, history)[i]).command,
            ),
        entries.len() < 50 ==> merged(entries, history).len() <= 50,
        entries.len() < 50 && merged(entries, history).len() < 50 ==> merged(entries, history)
            == merged(merged(entries, history), history),
    decreases history.len(),
{
    law_merged(entries, history);
    let all = merged(entries, history);
    if history.len() > 0 {
        let rest = history.drop_first();
        let after = if has_command(entries, history[0]) {
            entries
        } else {
            entries.push(CommandText { command: history[0], source: ChatCommandSource::History })
        };
        law_merged(after, rest);
        law_history_is_listed(after, rest);
        if !has_command(entries, history[0]) {
            assert(after[entries.len() as int].command == history[0]);
        }
        assert(has_command(after, history[0]));
        let f = choose|f: int| 0 <= f < after.len() && (#[trigger] after[f]).command == history[0];
        if after.len() < 50 {
            assert(all == merged(after, rest));
            assert(all.take(after.len() as int)[f] == after[f]);
            assert(all[f].command == history[0]);
            if all.len() < 50 {
                assert forall|k: int| 0 <= k < history.len() implies has_command(
                    all,
                    #[trigger] history[k],
                ) by {
                    if k > 0 {
                        assert(rest[k - 1] == history[k]);
                    }
                }
            }
            assert forall|i: int| entries.len() <= i < all.len() implies history.contains(
                (#[trigger] all[i]).command,
            ) by {
                if i < after.len() {
                    assert(all.take(after.len() as int)[i] == after[i]);
                    assert(history[0] == all[i].command);
                } else {
                    let k = choose|k: int| 0 <= k < rest.len() && rest[k] == all[i].command;
                    assert(history[k + 1] == rest[k]);
                }
            }
        } else {
            assert(all == after);
            assert forall|i: int| entries.len() <= i < all.len() implies history.contains(
                (#[trigger] all[i]).command,
            ) by {
                assert(history[0] == all[i].command);
            }
        }
    }
    if all.len() < 50 {
        lemma_merge_again(all, history);
    }
}

proof fn lemma_merge_again(entries: Seq<CommandText>, history: Seq<Seq<char>>)
    requires
        entries.len() < 50,
        forall|k: int| 0 <= k < history.len() ==> has_command(entries, #[trigger] history[k]),
    ensures
        merged(entries, history) == entries,
    decreases history.len(),
{
    if history.len() > 0 {
        let rest = history.drop_first();
        assert(has_command(entries, history[0]));
        assert forall|k: int| 0 <= k < rest.len() implies has_command(entries, #[trigger] rest[k]) by {
            assert(has_command(entries, history[k + 1]));
        }
        lemma_merge_again(entries, rest);
    }
}

/// The palette is open for an input with a slash in front and for no other, and while it is open
/// an answer to what stands behind the slash is awaited.
pub proof fn law_slash_opens_the_palette(palette: Palette, c: char, query: Seq<char>)
    ensures
        opens_palette(seq![c] + query) <==> c == '/',
        !opens_palette(Seq::empty()),
        palette.command_mode && palette.input@ == seq!['/'] + query ==> palette.awaits(query),
        !palette.command_mode ==> !palette.awaits(query),
        palette.input@.len() == 0 || palette.input@[0] != '/' ==> !palette.awaits(query),
        palette.awaits(query) ==> ascii_lowercase(trimmed(palette.input@.skip(1)))
            == ascii_lowercase(trimmed(query)),
{
    assert((seq!['/'] + query).skip(1) == query);
}

/// A request is sent exactly when there is something to send, none is on its way, an agent is
/// there with a model, and it has a key or needs none: one that runs here, by its provider or
/// its address, needs none.
pub proof fn law_when_a_request_is_sent(
    input: Seq<char>,
    in_flight: bool,
    agent: Option<AgentConfig>,
    keys: Seq<(String, String)>,
)
    ensures
        send_check(input, in_flight, agent, keys) == SendCheck::Ready <==> {
            &&& trimmed(input).len() > 0
            &&& !in_flight
            &&& agent is Some
            &&& trimmed((agent->0).model@).len() > 0
            &&& (agent->0).provider == ChatAgentProvider::Local || is_loopback(
                (agent->0).base_url@,
            ) || (key_of(keys, (agent->0).id@) matches Some(key) && key.len() > 0)
        },
        send_check(input, in_flight, agent, keys) == SendCheck::Blank <==> trimmed(input).len()
            == 0,
        send_check(input, in_flight, agent, keys) == SendCheck::InFlight <==> trimmed(input).len()
            > 0 && in_flight,
        send_check(input, in_flight, agent, keys) == SendCheck::NoAgent <==> trimmed(input).len()
            > 0 && !in_flight && agent is None,
        send_check(input, in_flight, agent, keys) == SendCheck::NeedKey <==> trimmed(input).len()
            > 0 && !in_flight && agent is Some && (agent->0).provider != ChatAgentProvider::Local
            && !is_loopback((agent->0).base_url@) && (key_of(keys, (agent->0).id@) is None || key_of(
            keys,
            (agent->0).id@,
        )->0.len() == 0),
{
}

/// The request carries the key that is held for its agent, and none where none is held.
pub proof fn law_held_key(keys: Seq<(String, String)>, agent: AgentConfig)
    ensures
        key_of(keys, agent.id@) matches Some(key) ==> held_key(keys, agent) == key,
        key_of(keys, agent.id@) is None ==> held_key(keys, agent).len() == 0,
{
}

/// The coordinates of a report are the two texts with a comma between them in front of the bar.
pub proof fn law_report_reads_back(x: Seq<char>, y: Seq<char>, mark: Seq<char>)
    requires
        !x.contains(','),
        !x.contains('|'),
        !y.contains('|'),
    ensures
        reported_coordinates(x + seq![','] + y + seq!['|'] + mark) == Some((x, y)),
        (cut_once(x + seq![','] + y + seq!['|'] + mark, '|')->0).1 == mark,
        reported_coordinates(x) is None,
        reported_coordinates(x + seq!['|'] + mark) is None,
{
    let front = x + seq![','] + y;
    if front.contains('|') {
        let i = choose|i: int| 0 <= i < front.len() && front[i] == '|';
        if i < x.len() {
            assert(x[i] == '|');
        } else if i > x.len() {
            assert(y[i - x.len() - 1] == '|');
        }
    }
    crate::search::law_cut_once(front, '|', mark);
    crate::search::law_cut_once(x, ',', y);
    crate::search::law_cut_once(x, '|', mark);
}

/// The page script looks for the terminal's input field of its session by the field's id, and
/// writes the escaped command in quotes.
pub proof fn law_script_names_the_session(
    script: Seq<char>,
    session_id: Seq<char>,
    command: Seq<char>,
)
    requires
        script == INSERT_OPEN@ + session_id + INSERT_SET@ + script_escaped(command) + INSERT_ELSE@
            + script_escaped(command) + INSERT_END@,
    ensures
        crate::search::starts_with_text(
            script,
            "(function(){var el=document.getElementById('terminal-input-"@ + session_id,
        ),
        holds_text(script, "setter.set.call(el,'"@ + script_escaped(command) + "')"@),
        holds_text(script, "el.value='"@ + script_escaped(command) + "'"@),
{
    let opening = INSERT_OPEN@ + session_id;
    let body = script_escaped(command);
    reveal_strlit("(function(){var el=document.getElementById('terminal-input-");
    reveal_strlit("setter.set.call(el,'");
    reveal_strlit("')");
    reveal_strlit("el.value='");
    reveal_strlit("'");
    reveal_strlit("');}else{el.value='");
    reveal_strlit("';}el.dispatchEvent(new Event('input',{bubbles:true}));})()");
    reveal_strlit(
        "');if(!el){return;}el.focus();var setter=Object.getOwnPropertyDescriptor(window.HTMLInputElement.prototype,'value')||Object.getOwnPropertyDescriptor(window.HTMLTextAreaElement.prototype,'value');if(setter&&setter.set){setter.set.call(el,'",
    );
    assert(opening.subrange(0, opening.len() as int) == opening);
    let s1 = opening + INSERT_SET@;
    let s2 = s1 + body;
    let s3 = s2 + INSERT_ELSE@;
    let s4 = s3 + body;
    let s5 = s4 + INSERT_END@;
    crate::search::lemma_starts_more(opening, INSERT_SET@, opening);
    crate::search::lemma_starts_more(s1, body, opening);
    crate::search::lemma_starts_more(s2, INSERT_ELSE@, opening);
    crate::search::lemma_starts_more(s3, body, opening);
    crate::search::lemma_starts_more(s4, INSERT_END@, opening);
    let call = "setter.set.call(el,'"@;
    let first = call + body + "')"@;
    let front = INSERT_SET@.len() - call.len();
    assert(INSERT_SET@.skip(front) == call);
    assert(INSERT_ELSE@.take(2) == "')"@);
    let at = opening.len() + front;
    assert(s3.subrange(at, at + first.len()) == first);
    assert(crate::search::stands_at(s3, first, at));
    crate::search::lemma_holds_more(s3, body, first);
    crate::search::lemma_holds_more(s4, INSERT_END@, first);
    let set = "el.value='"@;
    let second = set + body + "'"@;
    let skip = INSERT_ELSE@.len() - set.len();
    assert(INSERT_ELSE@.skip(skip) == set);
    assert(INSERT_END@.take(1) == "'"@);
    let from = s2.len() + skip;
    assert(s5.subrange(from, from + second.len()) == second);
    assert(crate::search::stands_at(s5, second, from));
}

} // verus!
