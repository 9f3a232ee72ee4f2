//! The settings dialog: the edited draft, the one-time password provider, local models, and
//! keyboard shortcuts.

use vstd::prelude::*;

use crate::clock::{clock_text, hour_minute, FIRST_TIMESTAMP, LAST_TIMESTAMP};
use crate::i18n::{Catalog, Language};
use crate::local_models::{CustomModelForm, QwenLocalSettings};
use crate::number::{decimal, decimal_text, parse_unsigned, parsed};
use crate::search::{starts_with, starts_with_text};
use crate::settings_search::{action_key, keybinding_action_key, KeybindingAction};
use crate::text::{lemma_filter_none, lemma_filter_step, opt_text, same, trim, trimmed};

verus! {

// ---------------------------------------------------------------------------------------------
// Skins
// ---------------------------------------------------------------------------------------------

/// A family of colours.
#[derive(Clone, Copy, PartialEq, Eq, Structural, Debug)]
pub enum SkinKind {
    TokyoNight,
    OneDark,
    SolarizedDark,
    Custom,
}

/// Whether the interface is dark or light.
#[derive(Clone, Copy, PartialEq, Eq, Structural, Debug)]
pub enum ThemeMode {
    Dark,
    Light,
    System,
}

/// The message that names a skin.
pub fn skin_kind_key(kind: SkinKind) -> (r: &'static str)
    ensures
        r@ == match kind {
            SkinKind::TokyoNight => "settings.skin_tokyo_night"@,
            SkinKind::OneDark => "settings.skin_one_dark"@,
            SkinKind::SolarizedDark => "settings.skin_solarized_dark"@,
            SkinKind::Custom => "settings.skin_custom"@,
        },
{
    match kind {
        SkinKind::TokyoNight => "settings.skin_tokyo_night",
        SkinKind::OneDark => "settings.skin_one_dark",
        SkinKind::SolarizedDark => "settings.skin_solarized_dark",
        SkinKind::Custom => "settings.skin_custom",
    }
}

/// The message that names a mode.
pub fn theme_mode_key(mode: ThemeMode) -> (r: &'static str)
    ensures
        r@ == match mode {
            ThemeMode::Dark => "settings.theme_dark"@,
            ThemeMode::Light => "settings.theme_light"@,
            ThemeMode::System => "settings.theme_system"@,
        },
{
    match mode {
        ThemeMode::Dark => "settings.theme_dark",
        ThemeMode::Light => "settings.theme_light",
        ThemeMode::System => "settings.theme_system",
    }
}

/// Whether the light colours are shown, given whether the system is dark.
pub fn shows_light(mode: ThemeMode, system_is_dark: bool) -> (r: bool)
    ensures
        r == match mode {
            ThemeMode::Dark => false,
            ThemeMode::Light => true,
            ThemeMode::System => !system_is_dark,
        },
{
    match mode {
        ThemeMode::Dark => false,
        ThemeMode::Light => true,
        ThemeMode::System => !system_is_dark,
    }
}

/// One of the colours of a skin.
#[derive(Clone, Copy, PartialEq, Eq, Structural, Debug)]
pub enum SkinColor {
    Background,
    Surface,
    SurfaceHover,
    Border,
    BorderStrong,
    Text,
    TextMuted,
    Accent,
    AccentSecondary,
    Success,
    Warning,
    Danger,
}

/// The colours of a skin.
#[derive(Clone, Debug, PartialEq)]
pub struct SkinPalette {
    pub background: String,
    pub surface: String,
    pub surface_hover: String,
    pub border: String,
    pub border_strong: String,
    pub text: String,
    pub text_muted: String,
    pub accent: String,
    pub accent_secondary: String,
    pub success: String,
    pub warning: String,
    pub danger: String,
}

/// The skin: its family, its mode, and the user's own colours for dark and light.
#[derive(Clone, Debug, PartialEq)]
pub struct SkinSettings {
    pub kind: SkinKind,
    pub mode: ThemeMode,
    pub custom: SkinPalette,
    pub custom_light: SkinPalette,
}

impl SkinPalette {
    /// One of the colours.
    pub open spec fn color(&self, which: SkinColor) -> String {
        match which {
            SkinColor::Background => self.background,
            SkinColor::Surface => self.surface,
            SkinColor::SurfaceHover => self.surface_hover,
            SkinColor::Border => self.border,
            SkinColor::BorderStrong => self.border_strong,
            SkinColor::Text => self.text,
            SkinColor::TextMuted => self.text_muted,
            SkinColor::Accent => self.accent,
            SkinColor::AccentSecondary => self.accent_secondary,
            SkinColor::Success => self.success,
            SkinColor::Warning => self.warning,
            SkinColor::Danger => self.danger,
        }
    }

    /// Sets one of the colours; the others stay.
    pub fn set_color(&mut self, which: SkinColor, value: String)
        ensures
            final(self).color(which) == value,
            forall|other: SkinColor|
                other != which ==> #[trigger] final(self).color(other) == old(self).color(other),
    {
        match which {
            SkinColor::Background => {
                self.background = value;
            },
            SkinColor::Surface => {
                self.surface = value;
            },
            SkinColor::SurfaceHover => {
                self.surface_hover = value;
            },
            SkinColor::Border => {
                self.border = value;
            },
            SkinColor::BorderStrong => {
                self.border_strong = value;
            },
            SkinColor::Text => {
                self.text = value;
            },
            SkinColor::TextMuted => {
                self.text_muted = value;
            },
            SkinColor::Accent => {
                self.accent = value;
            },
            SkinColor::AccentSecondary => {
                self.accent_secondary = value;
            },
            SkinColor::Success => {
                self.success = value;
            },
            SkinColor::Warning => {
                self.warning = value;
            },
            SkinColor::Danger => {
                self.danger = value;
            },
        }
    }
}

impl SkinSettings {
    /// Sets one of the user's own colours, for light or for dark; the rest stays.
    pub fn set_custom_color(&mut self, light: bool, which: SkinColor, value: String)
        ensures
            final(self).kind == old(self).kind,
            final(self).mode == old(self).mode,
            light ==> final(self).custom == old(self).custom && final(self).custom_light.color(
                which,
            ) == value && (forall|other: SkinColor|
                other != which ==> #[trigger] final(self).custom_light.color(other) == old(
                    self).custom_light.color(other)),
            !light ==> final(self).custom_light == old(self).custom_light && final(
                self).custom.color(which) == value && (forall|other: SkinColor|
                other != which ==> #[trigger] final(self).custom.color(other) == old(
                    self).custom.color(other)),
    {
        if light {
            self.custom_light.set_color(which, value);
        } else {
            self.custom.set_color(which, value);
        }
    }

    /// A click on a find: a find among the user's own colours selects the user's own skin, so
    /// that the colour is shown.
    pub fn open_find(&mut self, target: &str)
        ensures
            final(self).kind == (if starts_with_text(target@, "settings-color-"@) {
                SkinKind::Custom
            } else {
                old(self).kind
            }),
            final(self).mode == old(self).mode,
            final(self).custom == old(self).custom,
            final(self).custom_light == old(self).custom_light,
    {
        if starts_with(target, "settings-color-") {
            self.kind = SkinKind::Custom;
        }
    }
}

/// The page script that scrolls to an element and outlines it for a moment.
pub fn reveal_script(target: &str) -> (r: String)
    ensures
        r@ == "const el=document.getElementById('"@ + target@
            + "');if(el){el.scrollIntoView({behavior:'smooth',block:'center'});el.animate([{outline:'2px solid var(--settings-accent)'},{outline:'2px solid transparent'}],{duration:1200});}"@,
{
    let mut out = String::from_str("const el=document.getElementById('");
    out.append(target);
    out.append(
        "');if(el){el.scrollIntoView({behavior:'smooth',block:'center'});el.animate([{outline:'2px solid var(--settings-accent)'},{outline:'2px solid transparent'}],{duration:1200});}",
    );
    out
}

// ---------------------------------------------------------------------------------------------
// Languages, outlines and suggestions
// ---------------------------------------------------------------------------------------------

/// The code of a language in the selector.
pub open spec fn code_of(language: Language) -> Seq<char> {
    match language {
        Language::Zh => "zh"@,
        Language::En => "en"@,
    }
}

/// The language of a code: anything but English is Chinese.
pub open spec fn language_of(code: Seq<char>) -> Language {
    if code == "en"@ {
        Language::En
    } else {
        Language::Zh
    }
}

/// The code of a language in the selector.
pub fn language_code(language: Language) -> (r: &'static str)
    ensures
        r@ == code_of(language),
{
    match language {
        Language::Zh => "zh",
        Language::En => "en",
    }
}

/// The language that a selected code stands for.
pub fn selected_language(code: &str) -> (r: Language)
    ensures
        r == language_of(code@),
{
    if same(code, "en") {
        Language::En
    } else {
        Language::Zh
    }
}

/// Selecting the code of a language selects the language.
pub proof fn law_language_code_reads_back(language: Language)
    ensures
        language_of(code_of(language)) == language,
{
    reveal_strlit("zh");
    reveal_strlit("en");
    assert("zh"@[0] != "en"@[0]);
}

/// The outline of focused panes.
#[derive(Clone, Debug, PartialEq)]
pub struct FocusedTabAppearance {
    pub border_color: String,
    pub border_width: u8,
    pub border_radius: u8,
}

/// A slider's value: a text that is a small number is taken over, any other changes nothing.
pub fn slider_moved(value: &mut u8, typed: &str)
    ensures
        match parsed(typed@, 255) {
            Some(n) => *final(value) == n,
            None => *final(value) == *old(value),
        },
{
    match parse_unsigned(typed, 255) {
        Some(n) => {
            *value = n as u8;
        },
        None => {},
    }
}

/// The shadow that shows an outline.
pub fn outline_shadow(appearance: &FocusedTabAppearance) -> (r: String)
    ensures
        r@ == "inset 0 0 0 "@ + decimal(appearance.border_width as nat) + "px "@
            + appearance.border_color@,
{
    let mut out = String::from_str("inset 0 0 0 ");
    out.append(decimal_text(appearance.border_width as u64).as_str());
    out.append("px ");
    out.append(appearance.border_color.as_str());
    out
}

/// The message that describes a number of suggestions.
pub fn suggestion_count_key(count: u8) -> (r: &'static str)
    ensures
        r@ == (if count == 5 {
            "settings.suggestion_count_balanced"@
        } else if count == 10 {
            "settings.suggestion_count_extensive"@
        } else {
            "settings.suggestion_count_compact"@
        }),
{
    if count == 5 {
        "settings.suggestion_count_balanced"
    } else if count == 10 {
        "settings.suggestion_count_extensive"
    } else {
        "settings.suggestion_count_compact"
    }
}

// ---------------------------------------------------------------------------------------------
// Keyboard shortcuts
// ---------------------------------------------------------------------------------------------

/// Why a shortcut is refused.
#[derive(Clone, Copy, PartialEq, Eq, Structural, Debug)]
pub enum KeybindingValidationError {
    UnsafeShortcut,
    Conflict(KeybindingAction),
}

/// Tells why a shortcut is refused.
pub fn keybinding_error_text(
    error: KeybindingValidationError,
    language: Language,
    catalog: &Catalog,
) -> (r: String)
    ensures
        r@ == match error {
            KeybindingValidationError::UnsafeShortcut => catalog.text(
                language,
                "settings.keybinding_error_unsafe"@,
            ),
            KeybindingValidationError::Conflict(action) => catalog.text_with(
                language,
                "settings.keybinding_error_conflict"@,
                "action"@,
                catalog.text(language, action_key(action)@),
            ),
        },
{
    match error {
        KeybindingValidationError::UnsafeShortcut => catalog.t_for(
            language,
            "settings.keybinding_error_unsafe",
        ),
        KeybindingValidationError::Conflict(action) => {
            let name = catalog.t_for(language, keybinding_action_key(action));
            catalog.tf_for(
                language,
                "settings.keybinding_error_conflict",
                "action",
                name.as_str(),
            )
        },
    }
}

/// What was pressed while a shortcut is captured.
#[derive(Clone, Debug, PartialEq)]
pub enum CapturedKey {
    Escape,
    /// A key that makes no shortcut yet, such as a modifier alone.
    Incomplete,
    /// A shortcut: whether an application may take it, and the action that has it already.
    Chord { safe: bool, conflict: Option<KeybindingAction> },
}

/// The capture of a shortcut.
#[derive(Clone, Debug, PartialEq)]
pub struct KeybindingCapture {
    pub capturing: Option<KeybindingAction>,
    pub error: Option<KeybindingValidationError>,
}

impl KeybindingCapture {
    /// Starts to capture a shortcut for an action.
    pub fn begin(&mut self, action: KeybindingAction)
        ensures
            final(self).capturing == Some(action),
            final(self).error is None,
    {
        self.capturing = Some(action);
        self.error = None;
    }

    /// A key while a shortcut is captured; `true` means that the shortcut is the action's from
    /// now on. Escape ends the capture; a shortcut that is unsafe or another action's is
    /// refused and the capture goes on.
    pub fn key(&mut self, key: CapturedKey) -> (r: bool)
        ensures
            r <==> (key matches CapturedKey::Chord { safe, conflict } && safe && conflict is None),
            match key {
                CapturedKey::Escape => final(self).capturing is None && final(self).error is None,
                CapturedKey::Incomplete => *final(self) == *old(self),
                CapturedKey::Chord { safe, conflict } => if r {
                    final(self).capturing is None && final(self).error is None
                } else {
                    final(self).capturing == old(self).capturing && final(self).error == Some(
                        if !safe {
                            KeybindingValidationError::UnsafeShortcut
                        } else {
                            KeybindingValidationError::Conflict(conflict->0)
                        },
                    )
                },
            },
    {
        match key {
            CapturedKey::Escape => {
                self.capturing = None;
                self.error = None;
                false
            },
            CapturedKey::Incomplete => false,
            CapturedKey::Chord { safe, conflict } => {
                if !safe {
                    self.error = Some(KeybindingValidationError::UnsafeShortcut);
                    return false;
                }
                match conflict {
                    Some(other) => {
                        self.error = Some(KeybindingValidationError::Conflict(other));
                        false
                    },
                    None => {
                        self.capturing = None;
                        self.error = None;
                        true
                    },
                }
            },
        }
    }

    /// Takes an action's shortcut away.
    pub fn disabled(&mut self, action: KeybindingAction)
        ensures
            final(self).capturing == (if old(self).capturing == Some(action) {
                None
            } else {
                old(self).capturing
            }),
            final(self).error is None,
    {
        let same_action = match self.capturing {
            Some(current) => current == action,
            None => false,
        };
        if same_action {
            self.capturing = None;
        }
        self.error = None;
    }
}

/// The shortcut of an action: the first one that is listed for it.
pub open spec fn chord_of(list: Seq<(KeybindingAction, String)>, action: KeybindingAction) -> Option<
    Seq<char>,
>
    decreases list.len(),
{
    if list.len() == 0 {
        None
    } else {
        let before = chord_of(list.drop_last(), action);
        if before is None && list.last().0 == action {
            Some(list.last().1@)
        } else {
            before
        }
    }
}

/// Being the shortcut of another action.
pub open spec fn is_of_other(action: KeybindingAction) -> spec_fn((KeybindingAction, String)) -> bool {
    |entry: (KeybindingAction, String)| entry.0 != action
}

/// The shortcut of an action.
pub fn shortcut_of(list: &Vec<(KeybindingAction, String)>, action: KeybindingAction) -> (r: Option<
    String,
>)
    ensures
        opt_text(r) == chord_of(list@, action),
{
    let mut found: Option<String> = None;
    for i in 0..list.len()
        invariant
            opt_text(found) == chord_of(list@.take(i as int), action),
    {
        assert(list@.take(i + 1).drop_last() == list@.take(i as int));
        if found.is_none() && list[i].0 == action {
            found = Some(list[i].1.clone());
        }
    }
    assert(list@.take(list@.len() as int) == list@);
    found
}

/// Takes the shortcut of an action away; those of the other actions stay.
pub fn clear_shortcut(list: &mut Vec<(KeybindingAction, String)>, action: KeybindingAction)
    ensures
        final(list)@ == old(list)@.filter(is_of_other(action)),
{
    let ghost all = list@;
    let ghost keep = is_of_other(action);
    let count: usize = list.len();
    let mut left: usize = count;
    let mut out: Vec<(KeybindingAction, String)> = Vec::new();
    proof {
        lemma_filter_none(all, keep);
    }
    while left > 0
        invariant
            left <= count == all.len(),
            keep == is_of_other(action),
            list@ == all.skip(count - left),
            out@ == all.take(count - left).filter(keep),
        decreases left,
    {
        proof {
            lemma_filter_step(all, count - left, keep);
        }
        let entry = list.remove(0);
        if entry.0 != action {
            out.push(entry);
        }
        left = left - 1;
    }
    proof {
        lemma_filter_none(all, keep);
    }
    *list = out;
}

/// Gives an action a shortcut, in place of the one that it had; those of the other actions stay.
pub fn set_shortcut(
    list: &mut Vec<(KeybindingAction, String)>,
    action: KeybindingAction,
    chord: String,
)
    ensures
        final(list)@ == old(list)@.filter(is_of_other(action)).push((action, chord)),
{
    clear_shortcut(list, action);
    list.push((action, chord));
}

/// An action whose shortcut was taken away has none, and every other action has the one that it
/// had.
pub proof fn law_cleared_shortcut_is_gone(
    list: Seq<(KeybindingAction, String)>,
    action: KeybindingAction,
    other: KeybindingAction,
)
    ensures
        chord_of(list.filter(is_of_other(action)), action) is None,
        other != action ==> chord_of(list.filter(is_of_other(action)), other) == chord_of(
            list,
            other,
        ),
    decreases list.len(),
{
    reveal(Seq::filter);
    if list.len() > 0 {
        law_cleared_shortcut_is_gone(list.drop_last(), action, other);
        let before = list.drop_last().filter(is_of_other(action));
        if list.last().0 != action {
            assert(before.push(list.last()).drop_last() == before);
        }
    }
}

/// An action that was given a shortcut has it, and every other action has the one that it had.
pub proof fn law_set_shortcut_is_found(
    list: Seq<(KeybindingAction, String)>,
    action: KeybindingAction,
    chord: String,
    other: KeybindingAction,
)
    ensures
        chord_of(list.filter(is_of_other(action)).push((action, chord)), action) == Some(chord@),
        other != action ==> chord_of(list.filter(is_of_other(action)).push((action, chord)), other)
            == chord_of(list, other),
{
    law_cleared_shortcut_is_gone(list, action, other);
    let before = list.filter(is_of_other(action));
    assert(before.push((action, chord)).drop_last() == before);
}

// ---------------------------------------------------------------------------------------------
// One-time passwords
// ---------------------------------------------------------------------------------------------

/// Where one-time passwords come from. Without a provider the user enters them.
#[derive(Clone, Debug, PartialEq)]
pub enum OtpWebhookConfig {
    Manual,
    Feishubot {
        app_id: String,
        app_secret: String,
        chat_id: String,
        code_pattern: String,
        sender_open_id: Option<String>,
        max_age_secs: u64,
        base_url: String,
    },
    FeishuUser {
        app_id: String,
        app_secret: String,
        bot_open_id: String,
        code_pattern: String,
        request_text: String,
        base_url: String,
    },
    Http {
        url: String,
        method: String,
        body: Option<String>,
        headers: Vec<(String, String)>,
        code_pattern: String,
        timeout_secs: u64,
    },
}

/// The values with which a newly chosen provider starts.
#[derive(Clone, Debug, PartialEq)]
pub struct OtpDefaults {
    pub code_pattern: String,
    pub max_age_secs: u64,
    pub feishu_base_url: String,
    pub feishu_request_text: String,
}

/// A Feishu bot with nothing filled in.
pub fn otp_default_feishubot(defaults: &OtpDefaults) -> (r: OtpWebhookConfig)
    ensures
        r matches OtpWebhookConfig::Feishubot {
            app_id,
            app_secret,
            chat_id,
            code_pattern,
            sender_open_id,
            max_age_secs,
            base_url,
        } && app_id@.len() == 0 && app_secret@.len() == 0 && chat_id@.len() == 0 && code_pattern
            == defaults.code_pattern && sender_open_id is None && max_age_secs
            == defaults.max_age_secs && base_url == defaults.feishu_base_url,
{
    OtpWebhookConfig::Feishubot {
        app_id: String::new(),
        app_secret: String::new(),
        chat_id: String::new(),
        code_pattern: defaults.code_pattern.clone(),
        sender_open_id: None,
        max_age_secs: defaults.max_age_secs,
        base_url: defaults.feishu_base_url.clone(),
    }
}

/// A Feishu user with nothing filled in.
pub fn otp_default_feishuuser(defaults: &OtpDefaults) -> (r: OtpWebhookConfig)
    ensures
        r matches OtpWebhookConfig::FeishuUser {
            app_id,
            app_secret,
            bot_open_id,
            code_pattern,
            request_text,
            base_url,
        } && app_id@.len() == 0 && app_secret@.len() == 0 && bot_open_id@.len() == 0 && code_pattern
            == defaults.code_pattern && request_text == defaults.feishu_request_text && base_url
            == defaults.feishu_base_url,
{
    OtpWebhookConfig::FeishuUser {
        app_id: String::new(),
        app_secret: String::new(),
        bot_open_id: String::new(),
        code_pattern: defaults.code_pattern.clone(),
        request_text: defaults.feishu_request_text.clone(),
        base_url: defaults.feishu_base_url.clone(),
    }
}

/// A web address with nothing filled in.
pub fn otp_default_http(defaults: &OtpDefaults) -> (r: OtpWebhookConfig)
    ensures
        r matches OtpWebhookConfig::Http {
            url,
            method,
            body,
            headers,
            code_pattern,
            timeout_secs,
        } && url@.len() == 0 && method@ == "get"@ && body is None && headers@.len() == 0
            && code_pattern == defaults.code_pattern && timeout_secs == 10,
{
    OtpWebhookConfig::Http {
        url: String::new(),
        method: "get".to_owned(),
        body: None,
        headers: Vec::new(),
        code_pattern: defaults.code_pattern.clone(),
        timeout_secs: 10,
    }
}

/// The name of a provider in the selector.
pub open spec fn provider_name(setting: Option<OtpWebhookConfig>) -> Seq<char> {
    match setting {
        Some(OtpWebhookConfig::Feishubot { .. }) => "feishubot"@,
        Some(OtpWebhookConfig::Http { .. }) => "http"@,
        Some(OtpWebhookConfig::FeishuUser { .. }) => "feishuuser"@,
        Some(OtpWebhookConfig::Manual) => "manual"@,
        None => "manual"@,
    }
}

/// The name of a provider in the selector.
pub fn otp_kind(setting: &Option<OtpWebhookConfig>) -> (r: &'static str)
    ensures
        r@ == provider_name(*setting),
{
    match setting {
        Some(OtpWebhookConfig::Feishubot { .. }) => "feishubot",
        Some(OtpWebhookConfig::Http { .. }) => "http",
        Some(OtpWebhookConfig::FeishuUser { .. }) => "feishuuser",
        Some(OtpWebhookConfig::Manual) => "manual",
        None => "manual",
    }
}

/// Chooses a provider by its name, with nothing filled in; any other name chooses none.
pub fn choose_otp_provider(name: &str, defaults: &OtpDefaults) -> (r: Option<OtpWebhookConfig>)
    ensures
        r matches Some(config) ==> !(config is Manual),
        r is Some <==> name@ == "feishubot"@ || name@ == "http"@ || name@ == "feishuuser"@,
        r is Some ==> provider_name(r) == name@,
        r is None ==> provider_name(r) == "manual"@,
        name@ == "feishubot"@ ==> (r matches Some(OtpWebhookConfig::Feishubot {
            app_id,
            app_secret,
            chat_id,
            code_pattern,
            sender_open_id,
            max_age_secs,
            base_url,
        }) && app_id@.len() == 0 && app_secret@.len() == 0 && chat_id@.len() == 0 && code_pattern
            == defaults.code_pattern && sender_open_id is None && max_age_secs
            == defaults.max_age_secs && base_url == defaults.feishu_base_url),
        name@ == "http"@ ==> (r matches Some(OtpWebhookConfig::Http {
            url,
            method,
            body,
            headers,
            code_pattern,
            timeout_secs,
        }) && url@.len() == 0 && method@ == "get"@ && body is None && headers@.len() == 0
            && code_pattern == defaults.code_pattern && timeout_secs == 10),
        name@ == "feishuuser"@ ==> (r matches Some(OtpWebhookConfig::FeishuUser {
            app_id,
            app_secret,
            bot_open_id,
            code_pattern,
            request_text,
            base_url,
        }) && app_id@.len() == 0 && app_secret@.len() == 0 && bot_open_id@.len() == 0
            && code_pattern == defaults.code_pattern && request_text
            == defaults.feishu_request_text && base_url == defaults.feishu_base_url),
{
    proof {
        reveal_strlit("feishubot");
        reveal_strlit("http");
        reveal_strlit("feishuuser");
        assert("feishubot"@.len() == 9 && "http"@.len() == 4 && "feishuuser"@.len() == 10);
    }
    if same(name, "feishubot") {
        Some(otp_default_feishubot(defaults))
    } else if same(name, "http") {
        Some(otp_default_http(defaults))
    } else if same(name, "feishuuser") {
        Some(otp_default_feishuuser(defaults))
    } else {
        None
    }
}

/// A field of a provider.
#[derive(Clone, Copy, PartialEq, Eq, Structural, Debug)]
pub enum OtpField {
    BotAppId,
    BotAppSecret,
    BotChatId,
    BotSenderOpenId,
    BotCodePattern,
    BotMaxAgeSecs,
    UserAppId,
    UserAppSecret,
    UserBotOpenId,
    UserCodePattern,
    UserRequestText,
    HttpUrl,
    HttpMethod,
    HttpBody,
    HttpCodePattern,
    HttpTimeoutSecs,
}

/// A text that holds nothing but whitespace is no value.
pub open spec fn filled(typed: String) -> Option<String> {
    if trimmed(typed@).len() == 0 {
        None
    } else {
        Some(typed)
    }
}

/// A number of seconds that was typed; a text that is none leaves the value.
pub open spec fn typed_seconds(typed: String, current: u64) -> u64 {
    match parsed(trimmed(typed@), u64::MAX as nat) {
        Some(n) => n as u64,
        None => current,
    }
}

/// A provider after one of its fields was edited. A field of another provider changes nothing.
pub open spec fn otp_edited(config: OtpWebhookConfig, field: OtpField, typed: String) -> OtpWebhookConfig {
    match config {
        OtpWebhookConfig::Manual => config,
        OtpWebhookConfig::Feishubot {
            app_id,
            app_secret,
            chat_id,
            code_pattern,
            sender_open_id,
            max_age_secs,
            base_url,
        } => OtpWebhookConfig::Feishubot {
            app_id: if field == OtpField::BotAppId {
                typed
            } else {
                app_id
            },
            app_secret: if field == OtpField::BotAppSecret {
                typed
            } else {
                app_secret
            },
            chat_id: if field == OtpField::BotChatId {
                typed
            } else {
                chat_id
            },
            code_pattern: if field == OtpField::BotCodePattern {
                typed
            } else {
                code_pattern
            },
            sender_open_id: if field == OtpField::BotSenderOpenId {
                filled(typed)
            } else {
                sender_open_id
            },
            max_age_secs: if field == OtpField::BotMaxAgeSecs {
                typed_seconds(typed, max_age_secs)
            } else {
                max_age_secs
            },
            base_url,
        },
        OtpWebhookConfig::FeishuUser {
            app_id,
            app_secret,
            bot_open_id,
            code_pattern,
            request_text,
            base_url,
        } => OtpWebhookConfig::FeishuUser {
            app_id: if field == OtpField::UserAppId {
                typed
            } else {
                app_id
            },
            app_secret: if field == OtpField::UserAppSecret {
                typed
            } else {
                app_secret
            },
            bot_open_id: if field == OtpField::UserBotOpenId {
                typed
            } else {
                bot_open_id
            },
            code_pattern: if field == OtpField::UserCodePattern {
                typed
            } else {
                code_pattern
            },
            request_text: if field == OtpField::UserRequestText {
                typed
            } else {
                request_text
            },
            base_url,
        },
        OtpWebhookConfig::Http { url, method, body, headers, code_pattern, timeout_secs } =>
        OtpWebhookConfig::Http {
            url: if field == OtpField::HttpUrl {
                typed
            } else {
                url
            },
            method: if field == OtpField::HttpMethod {
                typed
            } else {
                method
            },
            body: if field == OtpField::HttpBody {
                filled(typed)
            } else {
                body
            },
            headers,
            code_pattern: if field == OtpField::HttpCodePattern {
                typed
            } else {
                code_pattern
            },
            timeout_secs: if field == OtpField::HttpTimeoutSecs {
                typed_seconds(typed, timeout_secs)
            } else {
                timeout_secs
            },
        },
    }
}

fn filled_value(typed: String) -> (r: Option<String>)
    ensures
        r == filled(typed),
{
    if trim(typed.as_str()).as_str().is_empty() {
        None
    } else {
        Some(typed)
    }
}

fn seconds_value(typed: String, current: u64) -> (r: u64)
    ensures
        r == typed_seconds(typed, current),
{
    match parse_unsigned(trim(typed.as_str()).as_str(), u64::MAX) {
        Some(n) => n,
        None => current,
    }
}

fn edit_provider(config: OtpWebhookConfig, field: OtpField, typed: String) -> (r: OtpWebhookConfig)
    ensures
        r == otp_edited(config, field, typed),
{
    match config {
        OtpWebhookConfig::Manual => OtpWebhookConfig::Manual,
        OtpWebhookConfig::Feishubot {
            app_id,
            app_secret,
            chat_id,
            code_pattern,
            sender_open_id,
            max_age_secs,
            base_url,
        } => {
            let mut app_id = app_id;
            let mut app_secret = app_secret;
            let mut chat_id = chat_id;
            let mut code_pattern = code_pattern;
            let mut sender_open_id = sender_open_id;
            let mut max_age_secs: u64 = max_age_secs;
            match field {
                OtpField::BotAppId => {
                    app_id = typed;
                },
                OtpField::BotAppSecret => {
                    app_secret = typed;
                },
                OtpField::BotChatId => {
                    chat_id = typed;
                },
                OtpField::BotCodePattern => {
                    code_pattern = typed;
                },
                OtpField::BotSenderOpenId => {
                    sender_open_id = filled_value(typed);
                },
                OtpField::BotMaxAgeSecs => {
                    max_age_secs = seconds_value(typed, max_age_secs);
                },
                _ => {},
            }
            OtpWebhookConfig::Feishubot {
                app_id,
                app_secret,
                chat_id,
                code_pattern,
                sender_open_id,
                max_age_secs,
                base_url,
            }
        },
        OtpWebhookConfig::FeishuUser {
            app_id,
            app_secret,
            bot_open_id,
            code_pattern,
            request_text,
            base_url,
        } => {
            let mut app_id = app_id;
            let mut app_secret = app_secret;
            let mut bot_open_id = bot_open_id;
            let mut code_pattern = code_pattern;
            let mut request_text = request_text;
            match field {
                OtpField::UserAppId => {
                    app_id = typed;
                },
                OtpField::UserAppSecret => {
                    app_secret = typed;
                },
                OtpField::UserBotOpenId => {
                    bot_open_id = typed;
                },
                OtpField::UserCodePattern => {
                    code_pattern = typed;
                },
                OtpField::UserRequestText => {
                    request_text = typed;
                },
                _ => {},
            }
            OtpWebhookConfig::FeishuUser {
                app_id,
                app_secret,
                bot_open_id,
                code_pattern,
                request_text,
                base_url,
            }
        },
        OtpWebhookConfig::Http { url, method, body, headers, code_pattern, timeout_secs } => {
            let mut url = url;
            let mut method = method;
            let mut body = body;
            let mut code_pattern = code_pattern;
            let mut timeout_secs: u64 = timeout_secs;
            match field {
                OtpField::HttpUrl => {
                    url = typed;
                },
                OtpField::HttpMethod => {
                    method = typed;
                },
                OtpField::HttpBody => {
                    body = filled_value(typed);
                },
                OtpField::HttpCodePattern => {
                    code_pattern = typed;
                },
                OtpField::HttpTimeoutSecs => {
                    timeout_secs = seconds_value(typed, timeout_secs);
                },
                _ => {},
            }
            OtpWebhookConfig::Http { url, method, body, headers, code_pattern, timeout_secs }
        },
    }
}

/// Edits one field of the provider.
pub fn edit_otp(setting: &mut Option<OtpWebhookConfig>, field: OtpField, typed: String)
    ensures
        *final(setting) == (match *old(setting) {
            Some(config) => Some(otp_edited(config, field, typed)),
            None => None,
        }),
{
    match setting.take() {
        Some(config) => {
            *setting = Some(edit_provider(config, field, typed));
        },
        None => {},
    }
}

/// Editing a field never changes which provider is chosen.
pub proof fn law_edit_keeps_the_provider(config: OtpWebhookConfig, field: OtpField, typed: String)
    ensures
        provider_name(Some(otp_edited(config, field, typed))) == provider_name(Some(config)),
{
}

/// The state of the Feishu token.
#[derive(Clone, Debug, PartialEq)]
pub enum FeishuTokenStatus {
    Connected { expires_at: i64 },
    Failed { reason: String },
}

/// The text of the Feishu token's state.
pub open spec fn token_text(
    status: Option<FeishuTokenStatus>,
    language: Language,
    catalog: &Catalog,
) -> Seq<char> {
    match status {
        Some(FeishuTokenStatus::Connected { expires_at }) => catalog.text_with(
            language,
            "settings.otp_feishu_token_connected"@,
            "ts"@,
            if FIRST_TIMESTAMP <= expires_at <= LAST_TIMESTAMP {
                hour_minute(expires_at as int)
            } else {
                Seq::empty()
            },
        ),
        Some(FeishuTokenStatus::Failed { reason }) => catalog.text_with(
            language,
            "settings.otp_feishu_token_failed"@,
            "reason"@,
            reason@,
        ),
        None => catalog.text(language, "settings.otp_feishu_token_missing"@),
    }
}

/// Tells the state of the Feishu token: until when it lasts, why there is none, or that none
/// was asked for.
pub fn feishu_token_text(
    status: &Option<FeishuTokenStatus>,
    language: Language,
    catalog: &Catalog,
) -> (r: String)
    ensures
        r@ == token_text(*status, language, catalog),
{
    match status {
        Some(FeishuTokenStatus::Connected { expires_at }) => {
            let time: String = match clock_text(*expires_at) {
                Some(text) => text,
                None => String::new(),
            };
            assert(time@ == (if FIRST_TIMESTAMP <= *expires_at <= LAST_TIMESTAMP {
                hour_minute(*expires_at as int)
            } else {
                Seq::empty()
            }));
            catalog.tf_for(language, "settings.otp_feishu_token_connected", "ts", time.as_str())
        },
        Some(FeishuTokenStatus::Failed { reason }) => catalog.tf_for(
            language,
            "settings.otp_feishu_token_failed",
            "reason",
            reason.as_str(),
        ),
        None => catalog.t_for(language, "settings.otp_feishu_token_missing"),
    }
}

// ---------------------------------------------------------------------------------------------
// The draft
// ---------------------------------------------------------------------------------------------

/// What the dialog edits, to be handed on when it is saved; the usage-habits mark is handed on as
/// soon as it is switched too.
#[derive(Clone, Debug, PartialEq)]
pub struct SettingsDraft {
    pub appearance: FocusedTabAppearance,
    pub suggestion_enabled: bool,
    pub suggestion_count: u8,
    pub comparison_warning: bool,
    pub usage_habits: bool,
    pub otp_webhook: Option<OtpWebhookConfig>,
    pub otp_webhook_enabled: bool,
    pub local_ai: QwenLocalSettings,
    pub custom_form: CustomModelForm,
    pub skin: SkinSettings,
    pub capture: KeybindingCapture,
}

/// What the groups of settings are without the user's changes.
#[derive(Clone, Debug, PartialEq)]
pub struct SettingsDefaults {
    pub appearance: FocusedTabAppearance,
    pub local_ai: QwenLocalSettings,
    pub skin: SkinSettings,
}

impl SettingsDraft {
    /// Resets the draft. The switch of the one-time password provider stays as it is; the
    /// provider itself, the form for a model and the capture of a shortcut are emptied.
    pub fn reset(&mut self, defaults: SettingsDefaults)
        ensures
            final(self).appearance == defaults.appearance,
            final(self).suggestion_enabled,
            final(self).suggestion_count == 3,
            final(self).comparison_warning,
            !final(self).usage_habits,
            final(self).otp_webhook is None,
            final(self).otp_webhook_enabled == old(self).otp_webhook_enabled,
            final(self).local_ai == defaults.local_ai,
            final(self).custom_form.is_blank(),
            final(self).skin == defaults.skin,
            final(self).capture.capturing is None,
            final(self).capture.error is None,
    {
        self.appearance = defaults.appearance;
        self.suggestion_enabled = true;
        self.suggestion_count = 3;
        self.comparison_warning = true;
        self.usage_habits = false;
        self.otp_webhook = None;
        self.local_ai = defaults.local_ai;
        self.custom_form.cancel();
        self.skin = defaults.skin;
        self.capture.capturing = None;
        self.capture.error = None;
    }
}

/// Each colour is the one of its name.
pub proof fn law_colors_by_name(palette: SkinPalette)
    ensures
        palette.color(SkinColor::Background) == palette.background,
        palette.color(SkinColor::Surface) == palette.surface,
        palette.color(SkinColor::SurfaceHover) == palette.surface_hover,
        palette.color(SkinColor::Border) == palette.border,
        palette.color(SkinColor::BorderStrong) == palette.border_strong,
        palette.color(SkinColor::Text) == palette.text,
        palette.color(SkinColor::TextMuted) == palette.text_muted,
        palette.color(SkinColor::Accent) == palette.accent,
        palette.color(SkinColor::AccentSecondary) == palette.accent_secondary,
        palette.color(SkinColor::Success) == palette.success,
        palette.color(SkinColor::Warning) == palette.warning,
        palette.color(SkinColor::Danger) == palette.danger,
{
}

/// English is chosen by its code alone; every other code is Chinese.
pub proof fn law_language_codes(code: Seq<char>)
    ensures
        language_of(code) == Language::En <==> code == "en"@,
        code_of(Language::En) == "en"@,
        code_of(Language::Zh) == "zh"@,
{
}

/// The shortcut of an action is the first one that is listed for it.
pub proof fn law_first_shortcut(
    list: Seq<(KeybindingAction, String)>,
    entry: (KeybindingAction, String),
    action: KeybindingAction,
)
    ensures
        chord_of(Seq::empty(), action) is None,
        chord_of(list, action) is Some ==> chord_of(list.push(entry), action) == chord_of(
            list,
            action,
        ),
        chord_of(list, action) is None && entry.0 == action ==> chord_of(list.push(entry), action)
            == Some(entry.1@),
        chord_of(list, action) is None && entry.0 != action ==> chord_of(
            list.push(entry),
            action,
        ) is None,
{
    assert(list.push(entry).drop_last() == list);
}

/// A provider of one-time passwords is named by its own word; where none is set, a code is typed
/// by hand.
pub proof fn law_provider_names(setting: Option<OtpWebhookConfig>)
    ensures
        setting is None ==> provider_name(setting) == "manual"@,
        setting matches Some(config) ==> {
            &&& config is Manual ==> provider_name(setting) == "manual"@
            &&& config is Feishubot ==> provider_name(setting) == "feishubot"@
            &&& config is FeishuUser ==> provider_name(setting) == "feishuuser"@
            &&& config is Http ==> provider_name(setting) == "http"@
        },
{
}

/// A blank text stands for none, and a number of seconds is taken over where the text is one.
pub proof fn law_typed_values(typed: String, current: u64, seconds: u64)
    ensures
        filled(typed) is None <==> trimmed(typed@).len() == 0,
        filled(typed) matches Some(text) ==> text == typed,
        typed@ == decimal(seconds as nat) ==> typed_seconds(typed, current) == seconds,
        parsed(trimmed(typed@), u64::MAX as nat) is None ==> typed_seconds(typed, current)
            == current,
{
    if typed@ == decimal(seconds as nat) {
        crate::number::law_decimal_reads_back(seconds as nat, u64::MAX as nat, Seq::empty(), 0);
        lemma_number_is_trimmed(seconds as nat);
    }
}

proof fn lemma_number_is_trimmed(n: nat)
    ensures
        trimmed(decimal(n)) == decimal(n),
{
    crate::number::lemma_decimal_digits(n);
    let text = decimal(n);
    assert(crate::number::is_digit(text[0]));
    assert(crate::number::is_digit(text[text.len() - 1]));
    crate::text::lemma_already_trimmed(text);
}

/// Editing a field of the bot puts what was typed into that field and leaves every other as it
/// was.
pub proof fn law_bot_edits(config: OtpWebhookConfig, field: OtpField, typed: String)
    requires
        config is Feishubot,
    ensures
        otp_edited(config, field, typed) is Feishubot,
        otp_edited(config, field, typed)->Feishubot_app_id == (if field == OtpField::BotAppId {
            typed
        } else {
            config->Feishubot_app_id
        }),
        otp_edited(config, field, typed)->Feishubot_app_secret == (if field
            == OtpField::BotAppSecret {
            typed
        } else {
            config->Feishubot_app_secret
        }),
        otp_edited(config, field, typed)->chat_id == (if field == OtpField::BotChatId {
            typed
        } else {
            config->chat_id
        }),
        otp_edited(config, field, typed)->Feishubot_code_pattern == (if field
            == OtpField::BotCodePattern {
            typed
        } else {
            config->Feishubot_code_pattern
        }),
        field != OtpField::BotSenderOpenId ==> otp_edited(config, field, typed)->sender_open_id
            == config->sender_open_id,
        field == OtpField::BotSenderOpenId ==> otp_edited(config, field, typed)->sender_open_id
            == filled(typed),
        field != OtpField::BotMaxAgeSecs ==> otp_edited(config, field, typed)->max_age_secs
            == config->max_age_secs,
        field == OtpField::BotMaxAgeSecs ==> otp_edited(config, field, typed)->max_age_secs
            == typed_seconds(typed, config->max_age_secs),
        otp_edited(config, field, typed)->Feishubot_base_url == config->Feishubot_base_url,
{
}

/// Editing a field of the user's own account puts what was typed into that field and leaves every
/// other as it was.
pub proof fn law_user_edits(config: OtpWebhookConfig, field: OtpField, typed: String)
    requires
        config is FeishuUser,
    ensures
        otp_edited(config, field, typed) is FeishuUser,
        otp_edited(config, field, typed)->FeishuUser_app_id == (if field == OtpField::UserAppId {
            typed
        } else {
            config->FeishuUser_app_id
        }),
        otp_edited(config, field, typed)->FeishuUser_app_secret == (if field
            == OtpField::UserAppSecret {
            typed
        } else {
            config->FeishuUser_app_secret
        }),
        otp_edited(config, field, typed)->bot_open_id == (if field == OtpField::UserBotOpenId {
            typed
        } else {
            config->bot_open_id
        }),
        otp_edited(config, field, typed)->FeishuUser_code_pattern == (if field
            == OtpField::UserCodePattern {
            typed
        } else {
            config->FeishuUser_code_pattern
        }),
        otp_edited(config, field, typed)->request_text == (if field == OtpField::UserRequestText {
            typed
        } else {
            config->request_text
        }),
        otp_edited(config, field, typed)->FeishuUser_base_url == config->FeishuUser_base_url,
{
}

/// Editing a field of a web address puts what was typed into that field and leaves every other as
/// it was.
pub proof fn law_http_edits(config: OtpWebhookConfig, field: OtpField, typed: String)
    requires
        config is Http,
    ensures
        otp_edited(config, field, typed) is Http,
        otp_edited(config, field, typed)->url == (if field == OtpField::HttpUrl {
            typed
        } else {
            config->url
        }),
        otp_edited(config, field, typed)->method == (if field == OtpField::HttpMethod {
            typed
        } else {
            config->method
        }),
        field != OtpField::HttpBody ==> otp_edited(config, field, typed)->body == config->body,
        field == OtpField::HttpBody ==> otp_edited(config, field, typed)->body == filled(typed),
        otp_edited(config, field, typed)->headers == config->headers,
        otp_edited(config, field, typed)->Http_code_pattern == (if field
            == OtpField::HttpCodePattern {
            typed
        } else {
            config->Http_code_pattern
        }),
        field != OtpField::HttpTimeoutSecs ==> otp_edited(config, field, typed)->timeout_secs
            == config->timeout_secs,
        field == OtpField::HttpTimeoutSecs ==> otp_edited(config, field, typed)->timeout_secs
            == typed_seconds(typed, config->timeout_secs),
{
}

/// Where a code is typed by hand there is nothing to edit.
pub proof fn law_manual_has_no_fields(field: OtpField, typed: String)
    ensures
        otp_edited(OtpWebhookConfig::Manual, field, typed) == OtpWebhookConfig::Manual,
{
}

/// What is told about a token: that there is none, why it failed, or until when it holds.
pub proof fn law_token_text(
    status: Option<FeishuTokenStatus>,
    language: Language,
    catalog: &Catalog,
)
    ensures
        status is None ==> token_text(status, language, catalog) == catalog.text(
            language,
            "settings.otp_feishu_token_missing"@,
        ),
        status matches Some(FeishuTokenStatus::Failed { reason }) ==> token_text(
            status,
            language,
            catalog,
        ) == catalog.text_with(
            language,
            "settings.otp_feishu_token_failed"@,
            "reason"@,
            reason@,
        ),
        status matches Some(FeishuTokenStatus::Connected { expires_at }) ==> (
        token_text(status, language, catalog) == catalog.text_with(
            language,
            "settings.otp_feishu_token_connected"@,
            "ts"@,
            if -8334601228800 <= expires_at <= 8210266876799 {
                hour_minute(expires_at as int)
            } else {
                Seq::empty()
            },
        )),
{
}

} // verus!
