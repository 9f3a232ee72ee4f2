//! Searching the settings: what can be found, how well a query fits it, and in which order the
//! finds are shown.

use vstd::prelude::*;
use vstd::utf8::encode_utf8;

use crate::i18n::{Catalog, Language};
use crate::search::{
    find_text, first_at, holds_text, lemma_holds_more, less, split_words, text_less, words,
};
use crate::sort::{is_order, lemma_insert_at, lemma_sort_map, sorted_by};
use crate::text::{chars_of, lowercase, same, texts, trim, trimmed};

verus! {

/// An action that has a keyboard shortcut.
#[derive(Clone, Copy, PartialEq, Eq, Structural, Debug)]
pub enum KeybindingAction {
    CloseFocusedPane,
    AppendPane,
    ToggleComparison,
    TogglePaneZoom,
    ToggleChat,
}

/// The actions in the order in which they are listed.
pub open spec fn all_actions() -> Seq<KeybindingAction> {
    seq![
        KeybindingAction::CloseFocusedPane,
        KeybindingAction::AppendPane,
        KeybindingAction::ToggleComparison,
        KeybindingAction::TogglePaneZoom,
        KeybindingAction::ToggleChat,
    ]
}

/// The actions in the order in which they are listed.
pub fn keybinding_actions() -> (r: Vec<KeybindingAction>)
    ensures
        r@ == all_actions(),
{
    let all: Vec<KeybindingAction> = vec![
        KeybindingAction::CloseFocusedPane,
        KeybindingAction::AppendPane,
        KeybindingAction::ToggleComparison,
        KeybindingAction::TogglePaneZoom,
        KeybindingAction::ToggleChat,
    ];
    all
}

/// The message that names an action.
pub open spec fn action_key(action: KeybindingAction) -> &'static str {
    match action {
        KeybindingAction::CloseFocusedPane => "settings.keybinding_close_focused_pane",
        KeybindingAction::AppendPane => "settings.keybinding_append_pane",
        KeybindingAction::ToggleComparison => "settings.keybinding_toggle_comparison",
        KeybindingAction::TogglePaneZoom => "settings.keybinding_toggle_pane_zoom",
        KeybindingAction::ToggleChat => "settings.keybinding_toggle_chat",
    }
}

/// The message that names an action.
pub fn keybinding_action_key(action: KeybindingAction) -> (r: &'static str)
    ensures
        r == action_key(action),
{
    match action {
        KeybindingAction::CloseFocusedPane => "settings.keybinding_close_focused_pane",
        KeybindingAction::AppendPane => "settings.keybinding_append_pane",
        KeybindingAction::ToggleComparison => "settings.keybinding_toggle_comparison",
        KeybindingAction::TogglePaneZoom => "settings.keybinding_toggle_pane_zoom",
        KeybindingAction::ToggleChat => "settings.keybinding_toggle_chat",
    }
}

/// The element of the dialog that shows an action.
pub open spec fn action_target(action: KeybindingAction) -> &'static str {
    match action {
        KeybindingAction::CloseFocusedPane => "settings-keybinding-close-focused-pane",
        KeybindingAction::AppendPane => "settings-keybinding-append-pane",
        KeybindingAction::ToggleComparison => "settings-keybinding-toggle-comparison",
        KeybindingAction::TogglePaneZoom => "settings-keybinding-toggle-pane-zoom",
        KeybindingAction::ToggleChat => "settings-keybinding-toggle-chat",
    }
}

/// The element of the dialog that shows an action.
pub fn keybinding_target(action: KeybindingAction) -> (r: &'static str)
    ensures
        r == action_target(action),
{
    match action {
        KeybindingAction::CloseFocusedPane => "settings-keybinding-close-focused-pane",
        KeybindingAction::AppendPane => "settings-keybinding-append-pane",
        KeybindingAction::ToggleComparison => "settings-keybinding-toggle-comparison",
        KeybindingAction::TogglePaneZoom => "settings-keybinding-toggle-pane-zoom",
        KeybindingAction::ToggleChat => "settings-keybinding-toggle-chat",
    }
}

/// A local model.
#[derive(Clone, Debug, PartialEq)]
pub struct ModelConfig {
    pub id: String,
    pub name: String,
    pub repo_id: String,
    pub architecture: String,
    pub prompt_template: String,
    pub eos_token: String,
}

/// A setting that can be found: its element in the dialog, the messages of its section, its
/// title and its description, and more words by which it is found.
#[derive(Clone, Debug, PartialEq)]
pub struct SearchDefinition {
    pub target: &'static str,
    pub section: &'static str,
    pub title: &'static str,
    pub description: Option<&'static str>,
    pub keywords: &'static str,
}

/// A find.
#[derive(Clone, Debug, PartialEq)]
pub struct SettingsSearchItem {
    pub target: &'static str,
    pub title: String,
    pub section: String,
    pub search_text: String,
}

/// The texts of a find.
#[verifier::ext_equal]
pub struct SearchItemText {
    pub target: Seq<char>,
    pub title: Seq<char>,
    pub section: Seq<char>,
    pub search_text: Seq<char>,
}

impl View for SettingsSearchItem {
    type V = SearchItemText;

    open spec fn view(&self) -> SearchItemText {
        SearchItemText {
            target: self.target@,
            title: self.title@,
            section: self.section@,
            search_text: self.search_text@,
        }
    }
}

/// The texts of a list of finds.
pub open spec fn items_view(items: Seq<SettingsSearchItem>) -> Seq<SearchItemText> {
    items.map_values(|item: SettingsSearchItem| item@)
}

// ---------------------------------------------------------------------------------------------
// What can be found
// ---------------------------------------------------------------------------------------------

/// The language and the look of focused panes.
pub open spec fn appearance_table() -> Seq<SearchDefinition> {
    seq![
        SearchDefinition {
            target: "settings-language",
            section: "settings.language",
            title: "settings.language",
            description: Some("settings.language_help"),
            keywords: "english chinese 中文 英文 locale i18n",
        },
        SearchDefinition {
            target: "settings-appearance",
            section: "settings.appearance",
            title: "settings.appearance",
            description: Some("settings.appearance_help"),
            keywords: "focused tab pane outline 聚焦 标签 窗格 轮廓",
        },
        SearchDefinition {
            target: "settings-outline-color",
            section: "settings.appearance",
            title: "settings.outline_color",
            description: None,
            keywords: "border colour 边框 颜色",
        },
        SearchDefinition {
            target: "settings-outline-width",
            section: "settings.appearance",
            title: "settings.outline_width",
            description: None,
            keywords: "border thickness px 边框 粗细",
        },
        SearchDefinition {
            target: "settings-corner-radius",
            section: "settings.appearance",
            title: "settings.corner_radius",
            description: None,
            keywords: "rounded corners radius 圆角",
        },
        SearchDefinition {
            target: "settings-appearance-preview",
            section: "settings.appearance",
            title: "settings.preview",
            description: None,
            keywords: "focused session preview 预览 聚焦会话",
        },
    ]
}

fn appearance_definitions() -> (r: Vec<SearchDefinition>)
    ensures
        r@ == appearance_table(),
{
    let all: Vec<SearchDefinition> = vec![
        SearchDefinition {
            target: "settings-language",
            section: "settings.language",
            title: "settings.language",
            description: Some("settings.language_help"),
            keywords: "english chinese 中文 英文 locale i18n",
        },
        SearchDefinition {
            target: "settings-appearance",
            section: "settings.appearance",
            title: "settings.appearance",
            description: Some("settings.appearance_help"),
            keywords: "focused tab pane outline 聚焦 标签 窗格 轮廓",
        },
        SearchDefinition {
            target: "settings-outline-color",
            section: "settings.appearance",
            title: "settings.outline_color",
            description: None,
            keywords: "border colour 边框 颜色",
        },
        SearchDefinition {
            target: "settings-outline-width",
            section: "settings.appearance",
            title: "settings.outline_width",
            description: None,
            keywords: "border thickness px 边框 粗细",
        },
        SearchDefinition {
            target: "settings-corner-radius",
            section: "settings.appearance",
            title: "settings.corner_radius",
            description: None,
            keywords: "rounded corners radius 圆角",
        },
        SearchDefinition {
            target: "settings-appearance-preview",
            section: "settings.appearance",
            title: "settings.preview",
            description: None,
            keywords: "focused session preview 预览 聚焦会话",
        },
    ];
    all
}

/// The skins.
pub open spec fn skin_table() -> Seq<SearchDefinition> {
    seq![
        SearchDefinition {
            target: "settings-theme-system",
            section: "settings.skin",
            title: "settings.theme_system",
            description: Some("settings.theme_mode_help"),
            keywords: "dark light system 暗色 亮色 系统 主题模式 外观",
        },
        SearchDefinition {
            target: "settings-skin",
            section: "settings.skin",
            title: "settings.skin",
            description: Some("settings.skin_help"),
            keywords: "theme palette chrome 主题 配色 调色板",
        },
        SearchDefinition {
            target: "settings-skin-tokyo-night",
            section: "settings.skin",
            title: "settings.skin_tokyo_night",
            description: None,
            keywords: "theme 主题",
        },
        SearchDefinition {
            target: "settings-skin-one-dark",
            section: "settings.skin",
            title: "settings.skin_one_dark",
            description: None,
            keywords: "theme 主题",
        },
        SearchDefinition {
            target: "settings-skin-solarized-dark",
            section: "settings.skin",
            title: "settings.skin_solarized_dark",
            description: None,
            keywords: "theme 主题",
        },
        SearchDefinition {
            target: "settings-skin-custom",
            section: "settings.skin",
            title: "settings.skin_custom",
            description: None,
            keywords: "theme palette 自定义 主题 配色",
        },
    ]
}

fn skin_definitions() -> (r: Vec<SearchDefinition>)
    ensures
        r@ == skin_table(),
{
    let all: Vec<SearchDefinition> = vec![
        SearchDefinition {
            target: "settings-theme-system",
            section: "settings.skin",
            title: "settings.theme_system",
            description: Some("settings.theme_mode_help"),
            keywords: "dark light system 暗色 亮色 系统 主题模式 外观",
        },
        SearchDefinition {
            target: "settings-skin",
            section: "settings.skin",
            title: "settings.skin",
            description: Some("settings.skin_help"),
            keywords: "theme palette chrome 主题 配色 调色板",
        },
        SearchDefinition {
            target: "settings-skin-tokyo-night",
            section: "settings.skin",
            title: "settings.skin_tokyo_night",
            description: None,
            keywords: "theme 主题",
        },
        SearchDefinition {
            target: "settings-skin-one-dark",
            section: "settings.skin",
            title: "settings.skin_one_dark",
            description: None,
            keywords: "theme 主题",
        },
        SearchDefinition {
            target: "settings-skin-solarized-dark",
            section: "settings.skin",
            title: "settings.skin_solarized_dark",
            description: None,
            keywords: "theme 主题",
        },
        SearchDefinition {
            target: "settings-skin-custom",
            section: "settings.skin",
            title: "settings.skin_custom",
            description: None,
            keywords: "theme palette 自定义 主题 配色",
        },
    ];
    all
}

/// The colours of a custom skin.
pub open spec fn color_table() -> Seq<SearchDefinition> {
    seq![
        SearchDefinition {
            target: "settings-color-background",
            section: "settings.skin",
            title: "settings.color_background",
            description: None,
            keywords: "custom palette color 自定义 调色板 颜色",
        },
        SearchDefinition {
            target: "settings-color-surface",
            section: "settings.skin",
            title: "settings.color_surface",
            description: None,
            keywords: "custom palette color 自定义 调色板 颜色",
        },
        SearchDefinition {
            target: "settings-color-surface_hover",
            section: "settings.skin",
            title: "settings.color_surface_hover",
            description: None,
            keywords: "custom palette hover color 自定义 调色板 悬停 颜色",
        },
        SearchDefinition {
            target: "settings-color-border",
            section: "settings.skin",
            title: "settings.color_border",
            description: None,
            keywords: "custom palette color 自定义 调色板 边框 颜色",
        },
        SearchDefinition {
            target: "settings-color-border_strong",
            section: "settings.skin",
            title: "settings.color_border_strong",
            description: None,
            keywords: "custom palette color 自定义 调色板 强调边框 颜色",
        },
        SearchDefinition {
            target: "settings-color-text",
            section: "settings.skin",
            title: "settings.color_text",
            description: None,
            keywords: "custom palette foreground 自定义 调色板 前景 文本",
        },
        SearchDefinition {
            target: "settings-color-text_muted",
            section: "settings.skin",
            title: "settings.color_text_muted",
            description: None,
            keywords: "custom palette secondary text 自定义 调色板 弱化文本",
        },
        SearchDefinition {
            target: "settings-color-accent",
            section: "settings.skin",
            title: "settings.color_accent",
            description: None,
            keywords: "custom palette highlight 自定义 调色板 强调色",
        },
        SearchDefinition {
            target: "settings-color-accent_secondary",
            section: "settings.skin",
            title: "settings.color_accent_secondary",
            description: None,
            keywords: "custom palette highlight 自定义 调色板 次强调色",
        },
        SearchDefinition {
            target: "settings-color-success",
            section: "settings.skin",
            title: "settings.color_success",
            description: None,
            keywords: "custom palette status green 自定义 调色板 成功",
        },
        SearchDefinition {
            target: "settings-color-warning",
            section: "settings.skin",
            title: "settings.color_warning",
            description: None,
            keywords: "custom palette status yellow 自定义 调色板 警告",
        },
        SearchDefinition {
            target: "settings-color-danger",
            section: "settings.skin",
            title: "settings.color_danger",
            description: None,
            keywords: "custom palette status red 自定义 调色板 危险",
        },
    ]
}

fn color_definitions() -> (r: Vec<SearchDefinition>)
    ensures
        r@ == color_table(),
{
    let all: Vec<SearchDefinition> = vec![
        SearchDefinition {
            target: "settings-color-background",
            section: "settings.skin",
            title: "settings.color_background",
            description: None,
            keywords: "custom palette color 自定义 调色板 颜色",
        },
        SearchDefinition {
            target: "settings-color-surface",
            section: "settings.skin",
            title: "settings.color_surface",
            description: None,
            keywords: "custom palette color 自定义 调色板 颜色",
        },
        SearchDefinition {
            target: "settings-color-surface_hover",
            section: "settings.skin",
            title: "settings.color_surface_hover",
            description: None,
            keywords: "custom palette hover color 自定义 调色板 悬停 颜色",
        },
        SearchDefinition {
            target: "settings-color-border",
            section: "settings.skin",
            title: "settings.color_border",
            description: None,
            keywords: "custom palette color 自定义 调色板 边框 颜色",
        },
        SearchDefinition {
            target: "settings-color-border_strong",
            section: "settings.skin",
            title: "settings.color_border_strong",
            description: None,
            keywords: "custom palette color 自定义 调色板 强调边框 颜色",
        },
        SearchDefinition {
            target: "settings-color-text",
            section: "settings.skin",
            title: "settings.color_text",
            description: None,
            keywords: "custom palette foreground 自定义 调色板 前景 文本",
        },
        SearchDefinition {
            target: "settings-color-text_muted",
            section: "settings.skin",
            title: "settings.color_text_muted",
            description: None,
            keywords: "custom palette secondary text 自定义 调色板 弱化文本",
        },
        SearchDefinition {
            target: "settings-color-accent",
            section: "settings.skin",
            title: "settings.color_accent",
            description: None,
            keywords: "custom palette highlight 自定义 调色板 强调色",
        },
        SearchDefinition {
            target: "settings-color-accent_secondary",
            section: "settings.skin",
            title: "settings.color_accent_secondary",
            description: None,
            keywords: "custom palette highlight 自定义 调色板 次强调色",
        },
        SearchDefinition {
            target: "settings-color-success",
            section: "settings.skin",
            title: "settings.color_success",
            description: None,
            keywords: "custom palette status green 自定义 调色板 成功",
        },
        SearchDefinition {
            target: "settings-color-warning",
            section: "settings.skin",
            title: "settings.color_warning",
            description: None,
            keywords: "custom palette status yellow 自定义 调色板 警告",
        },
        SearchDefinition {
            target: "settings-color-danger",
            section: "settings.skin",
            title: "settings.color_danger",
            description: None,
            keywords: "custom palette status red 自定义 调色板 危险",
        },
    ];
    all
}

/// Suggestions, comparison, usage habits and one-time passwords.
pub open spec fn behavior_table() -> Seq<SearchDefinition> {
    seq![
        SearchDefinition {
            target: "settings-suggestions",
            section: "settings.suggestions",
            title: "settings.suggestions",
            description: Some("settings.suggestions_help"),
            keywords: "command history inline fish autocomplete 命令历史 行内 自动补全",
        },
        SearchDefinition {
            target: "settings-enable-suggestions",
            section: "settings.suggestions",
            title: "settings.enable_suggestions",
            description: Some("settings.suggestions_help"),
            keywords: "toggle command history autocomplete 开关 命令历史 自动补全",
        },
        SearchDefinition {
            target: "settings-suggestion-count",
            section: "settings.suggestions",
            title: "settings.suggestion_count",
            description: None,
            keywords: "3 5 10 compact balanced extensive 数量 紧凑 均衡",
        },
        SearchDefinition {
            target: "settings-comparison",
            section: "settings.comparison",
            title: "settings.comparison",
            description: Some("settings.comparison_help"),
            keywords: "compare diff synchronized input 比对 差异 同步输入",
        },
        SearchDefinition {
            target: "settings-comparison-warning",
            section: "settings.comparison",
            title: "settings.comparison_diff_warning",
            description: Some("settings.comparison_help"),
            keywords: "large diff highlight warning 大量 差异 高亮 警告",
        },
        SearchDefinition {
            target: "settings-usage-habits",
            section: "settings.usage_habits",
            title: "settings.usage_habits",
            description: Some("settings.usage_habits_help"),
            keywords: "privacy telemetry analytics duckdb 隐私 遥测 习惯 本地",
        },
        SearchDefinition {
            target: "settings-collect-usage",
            section: "settings.usage_habits",
            title: "settings.collect_usage_habits",
            description: Some("settings.usage_habits_help"),
            keywords: "opt in telemetry analytics 收集 开关 选择加入",
        },
        SearchDefinition {
            target: "settings-collected-data",
            section: "settings.usage_habits",
            title: "settings.what_is_collected",
            description: None,
            keywords: "command category activity corrections host count 收集内容 命令类别 活动 更正 主机数",
        },
        SearchDefinition {
            target: "settings-never-collected",
            section: "settings.usage_habits",
            title: "settings.never_collected",
            description: None,
            keywords: "password key token credential secret privacy 密码 私钥 令牌 凭据 机密",
        },
        SearchDefinition {
            target: "settings-export-report",
            section: "settings.usage_habits",
            title: "settings.export_report",
            description: Some("settings.export_report_help"),
            keywords: "json download sanitized privacy 导出 下载 清理 隐私报告",
        },
        SearchDefinition {
            target: "settings-otp-webhook",
            section: "settings.otp_webhook",
            title: "settings.otp_webhook",
            description: Some("settings.otp_webhook_help"),
            keywords: "otp mfa 2fa jumpServer jumpserver otp feishu webhook verification one time password second factor 二次认证 验证码 飞书 堡垒机 机器人 webhook",
        },
    ]
}

fn behavior_definitions() -> (r: Vec<SearchDefinition>)
    ensures
        r@ == behavior_table(),
{
    let all: Vec<SearchDefinition> = vec![
        SearchDefinition {
            target: "settings-suggestions",
            section: "settings.suggestions",
            title: "settings.suggestions",
            description: Some("settings.suggestions_help"),
            keywords: "command history inline fish autocomplete 命令历史 行内 自动补全",
        },
        SearchDefinition {
            target: "settings-enable-suggestions",
            section: "settings.suggestions",
            title: "settings.enable_suggestions",
            description: Some("settings.suggestions_help"),
            keywords: "toggle command history autocomplete 开关 命令历史 自动补全",
        },
        SearchDefinition {
            target: "settings-suggestion-count",
            section: "settings.suggestions",
            title: "settings.suggestion_count",
            description: None,
            keywords: "3 5 10 compact balanced extensive 数量 紧凑 均衡",
        },
        SearchDefinition {
            target: "settings-comparison",
            section: "settings.comparison",
            title: "settings.comparison",
            description: Some("settings.comparison_help"),
            keywords: "compare diff synchronized input 比对 差异 同步输入",
        },
        SearchDefinition {
            target: "settings-comparison-warning",
            section: "settings.comparison",
            title: "settings.comparison_diff_warning",
            description: Some("settings.comparison_help"),
            keywords: "large diff highlight warning 大量 差异 高亮 警告",
        },
        SearchDefinition {
            target: "settings-usage-habits",
            section: "settings.usage_habits",
            title: "settings.usage_habits",
            description: Some("settings.usage_habits_help"),
            keywords: "privacy telemetry analytics duckdb 隐私 遥测 习惯 本地",
        },
        SearchDefinition {
            target: "settings-collect-usage",
            section: "settings.usage_habits",
            title: "settings.collect_usage_habits",
            description: Some("settings.usage_habits_help"),
            keywords: "opt in telemetry analytics 收集 开关 选择加入",
        },
        SearchDefinition {
            target: "settings-collected-data",
            section: "settings.usage_habits",
            title: "settings.what_is_collected",
            description: None,
            keywords: "command category activity corrections host count 收集内容 命令类别 活动 更正 主机数",
        },
        SearchDefinition {
            target: "settings-never-collected",
            section: "settings.usage_habits",
            title: "settings.never_collected",
            description: None,
            keywords: "password key token credential secret privacy 密码 私钥 令牌 凭据 机密",
        },
        SearchDefinition {
            target: "settings-export-report",
            section: "settings.usage_habits",
            title: "settings.export_report",
            description: Some("settings.export_report_help"),
            keywords: "json download sanitized privacy 导出 下载 清理 隐私报告",
        },
        SearchDefinition {
            target: "settings-otp-webhook",
            section: "settings.otp_webhook",
            title: "settings.otp_webhook",
            description: Some("settings.otp_webhook_help"),
            keywords: "otp mfa 2fa jumpServer jumpserver otp feishu webhook verification one time password second factor 二次认证 验证码 飞书 堡垒机 机器人 webhook",
        },
    ];
    all
}

/// The local model.
pub open spec fn local_ai_table() -> Seq<SearchDefinition> {
    seq![
        SearchDefinition {
            target: "settings-local-ai",
            section: "ai_runtime.local.enable",
            title: "ai_runtime.local.enable",
            description: Some("ai_runtime.local.enable_hint"),
            keywords: "qwen llm offline template script 本地 模型 离线 模板 脚本",
        },
        SearchDefinition {
            target: "settings-local-ai-mirror",
            section: "ai_runtime.local.enable",
            title: "ai_runtime.local.mirror_url",
            description: Some("ai_runtime.local.mirror_url_hint"),
            keywords: "hf huggingface endpoint download mirror 下载 镜像 地址",
        },
        SearchDefinition {
            target: "settings-local-ai-model",
            section: "ai_runtime.local.enable",
            title: "ai_runtime.local.model_select",
            description: None,
            keywords: "qwen llm active model 当前 模型 选择",
        },
        SearchDefinition {
            target: "settings-local-ai-download",
            section: "ai_runtime.local.enable",
            title: "ai_runtime.local.download_model",
            description: Some("ai_runtime.local.download_hint"),
            keywords: "download model weights quantize cache 下载 模型 权重 量化 缓存",
        },
        SearchDefinition {
            target: "settings-local-ai-custom",
            section: "ai_runtime.local.enable",
            title: "ai_runtime.local.custom_form_show",
            description: None,
            keywords: "add custom model repo prompt eos 添加 自定义 模型 仓库 提示词 结束符",
        },
        SearchDefinition {
            target: "settings-local-ai-custom",
            section: "ai_runtime.local.enable",
            title: "ai_runtime.local.custom_name",
            description: None,
            keywords: "display name custom model 显示名称 自定义模型",
        },
        SearchDefinition {
            target: "settings-local-ai-custom",
            section: "ai_runtime.local.enable",
            title: "ai_runtime.local.custom_repo",
            description: None,
            keywords: "repository huggingface custom model 仓库 自定义模型",
        },
        SearchDefinition {
            target: "settings-local-ai-custom",
            section: "ai_runtime.local.enable",
            title: "ai_runtime.local.custom_template",
            description: None,
            keywords: "prompt chat template custom model 提示词 模板 自定义模型",
        },
        SearchDefinition {
            target: "settings-local-ai-custom",
            section: "ai_runtime.local.enable",
            title: "ai_runtime.local.custom_eos",
            description: None,
            keywords: "end token custom model 结束符 自定义模型",
        },
    ]
}

fn local_ai_definitions() -> (r: Vec<SearchDefinition>)
    ensures
        r@ == local_ai_table(),
{
    let all: Vec<SearchDefinition> = vec![
        SearchDefinition {
            target: "settings-local-ai",
            section: "ai_runtime.local.enable",
            title: "ai_runtime.local.enable",
            description: Some("ai_runtime.local.enable_hint"),
            keywords: "qwen llm offline template script 本地 模型 离线 模板 脚本",
        },
        SearchDefinition {
            target: "settings-local-ai-mirror",
            section: "ai_runtime.local.enable",
            title: "ai_runtime.local.mirror_url",
            description: Some("ai_runtime.local.mirror_url_hint"),
            keywords: "hf huggingface endpoint download mirror 下载 镜像 地址",
        },
        SearchDefinition {
            target: "settings-local-ai-model",
            section: "ai_runtime.local.enable",
            title: "ai_runtime.local.model_select",
            description: None,
            keywords: "qwen llm active model 当前 模型 选择",
        },
        SearchDefinition {
            target: "settings-local-ai-download",
            section: "ai_runtime.local.enable",
            title: "ai_runtime.local.download_model",
            description: Some("ai_runtime.local.download_hint"),
            keywords: "download model weights quantize cache 下载 模型 权重 量化 缓存",
        },
        SearchDefinition {
            target: "settings-local-ai-custom",
            section: "ai_runtime.local.enable",
            title: "ai_runtime.local.custom_form_show",
            description: None,
            keywords: "add custom model repo prompt eos 添加 自定义 模型 仓库 提示词 结束符",
        },
        SearchDefinition {
            target: "settings-local-ai-custom",
            section: "ai_runtime.local.enable",
            title: "ai_runtime.local.custom_name",
            description: None,
            keywords: "display name custom model 显示名称 自定义模型",
        },
        SearchDefinition {
            target: "settings-local-ai-custom",
            section: "ai_runtime.local.enable",
            title: "ai_runtime.local.custom_repo",
            description: None,
            keywords: "repository huggingface custom model 仓库 自定义模型",
        },
        SearchDefinition {
            target: "settings-local-ai-custom",
            section: "ai_runtime.local.enable",
            title: "ai_runtime.local.custom_template",
            description: None,
            keywords: "prompt chat template custom model 提示词 模板 自定义模型",
        },
        SearchDefinition {
            target: "settings-local-ai-custom",
            section: "ai_runtime.local.enable",
            title: "ai_runtime.local.custom_eos",
            description: None,
            keywords: "end token custom model 结束符 自定义模型",
        },
    ];
    all
}

/// Shortcuts and the reset button.
pub open spec fn closing_table() -> Seq<SearchDefinition> {
    seq![
        SearchDefinition {
            target: "settings-keybindings",
            section: "settings.keybindings",
            title: "settings.keybindings",
            description: Some("settings.keybindings_help"),
            keywords: "keyboard hotkey shortcut 键盘 热键 快捷键",
        },
        SearchDefinition {
            target: "settings-reset-default",
            section: "settings.title",
            title: "settings.reset_default",
            description: None,
            keywords: "restore factory defaults reset 恢复 默认 重置",
        },
    ]
}

fn closing_definitions() -> (r: Vec<SearchDefinition>)
    ensures
        r@ == closing_table(),
{
    let all: Vec<SearchDefinition> = vec![
        SearchDefinition {
            target: "settings-keybindings",
            section: "settings.keybindings",
            title: "settings.keybindings",
            description: Some("settings.keybindings_help"),
            keywords: "keyboard hotkey shortcut 键盘 热键 快捷键",
        },
        SearchDefinition {
            target: "settings-reset-default",
            section: "settings.title",
            title: "settings.reset_default",
            description: None,
            keywords: "restore factory defaults reset 恢复 默认 重置",
        },
    ];
    all
}

/// Every setting that has a place of its own in the dialog.
pub open spec fn search_table() -> Seq<SearchDefinition> {
    appearance_table() + skin_table() + color_table() + behavior_table() + local_ai_table()
        + closing_table()
}

/// The definition of an action's shortcut.
pub open spec fn action_definition(action: KeybindingAction) -> SearchDefinition {
    SearchDefinition {
        target: action_target(action),
        section: "settings.keybindings",
        title: action_key(action),
        description: Some("settings.keybindings_help"),
        keywords: "keyboard hotkey shortcut disable capture 键盘 热键 快捷键 禁用 录入",
    }
}

/// What a definition is found by: its title, its section, its keywords and its description, in
/// both languages.
pub open spec fn definition_text(catalog: &Catalog, definition: SearchDefinition) -> Seq<char> {
    let base = catalog.text(Language::En, definition.title@) + " "@ + catalog.text(
        Language::Zh,
        definition.title@,
    ) + " "@ + catalog.text(Language::En, definition.section@) + " "@ + catalog.text(
        Language::Zh,
        definition.section@,
    ) + " "@ + definition.keywords@;
    match definition.description {
        Some(key) => base + " "@ + catalog.text(Language::En, key@) + " "@ + catalog.text(
            Language::Zh,
            key@,
        ),
        None => base,
    }
}

/// A definition as a find.
pub open spec fn definition_item(
    catalog: &Catalog,
    language: Language,
    definition: SearchDefinition,
) -> SearchItemText {
    SearchItemText {
        target: definition.target@,
        title: catalog.text(language, definition.title@),
        section: catalog.text(language, definition.section@),
        search_text: definition_text(catalog, definition),
    }
}

/// A local model as a find.
pub open spec fn model_item(
    catalog: &Catalog,
    language: Language,
    model: ModelConfig,
) -> SearchItemText {
    SearchItemText {
        target: "settings-local-ai-model"@,
        title: model.name@,
        section: catalog.text(language, "ai_runtime.local.enable"@),
        search_text: model.name@ + " "@ + model.repo_id@ + " "@ + model.id@
            + " model qwen huggingface 模型"@,
    }
}

/// All finds: the settings, the shortcuts, the built-in models and the user's models.
pub open spec fn search_items(
    catalog: &Catalog,
    language: Language,
    builtin_models: Seq<ModelConfig>,
    custom_models: Seq<ModelConfig>,
) -> Seq<SearchItemText> {
    search_table().map_values(|d: SearchDefinition| definition_item(catalog, language, d))
        + all_actions().map_values(
        |a: KeybindingAction| definition_item(catalog, language, action_definition(a)),
    ) + builtin_models.map_values(|m: ModelConfig| model_item(catalog, language, m))
        + custom_models.map_values(|m: ModelConfig| model_item(catalog, language, m))
}

/// A definition as a find.
pub fn translated_search_item(
    definition: &SearchDefinition,
    language: Language,
    catalog: &Catalog,
) -> (r: SettingsSearchItem)
    ensures
        r@ == definition_item(catalog, language, *definition),
{
    let mut search_text = catalog.t_for(Language::En, definition.title);
    search_text.append(" ");
    search_text.append(catalog.t_for(Language::Zh, definition.title).as_str());
    search_text.append(" ");
    search_text.append(catalog.t_for(Language::En, definition.section).as_str());
    search_text.append(" ");
    search_text.append(catalog.t_for(Language::Zh, definition.section).as_str());
    search_text.append(" ");
    search_text.append(definition.keywords);
    match definition.description {
        Some(key) => {
            search_text.append(" ");
            search_text.append(catalog.t_for(Language::En, key).as_str());
            search_text.append(" ");
            search_text.append(catalog.t_for(Language::Zh, key).as_str());
        },
        None => {},
    }
    SettingsSearchItem {
        target: definition.target,
        title: catalog.t_for(language, definition.title),
        section: catalog.t_for(language, definition.section),
        search_text,
    }
}

fn model_search_item(model: &ModelConfig, language: Language, catalog: &Catalog) -> (r:
    SettingsSearchItem)
    ensures
        r@ == model_item(catalog, language, *model),
{
    let mut search_text = model.name.clone();
    search_text.append(" ");
    search_text.append(model.repo_id.as_str());
    search_text.append(" ");
    search_text.append(model.id.as_str());
    search_text.append(" model qwen huggingface 模型");
    SettingsSearchItem {
        target: "settings-local-ai-model",
        title: model.name.clone(),
        section: catalog.t_for(language, "ai_runtime.local.enable"),
        search_text,
    }
}

proof fn lemma_items_push(items: Seq<SettingsSearchItem>, item: SettingsSearchItem)
    ensures
        items_view(items.push(item)) == items_view(items).push(item@),
{
}

fn push_definitions(
    items: &mut Vec<SettingsSearchItem>,
    definitions: &Vec<SearchDefinition>,
    language: Language,
    catalog: &Catalog,
)
    ensures
        items_view(final(items)@) == items_view(old(items)@) + definitions@.map_values(
            |d: SearchDefinition| definition_item(catalog, language, d),
        ),
{
    let ghost f = |d: SearchDefinition| definition_item(catalog, language, d);
    let ghost all = definitions@.map_values(f);
    let ghost start = items_view(items@);
    assert(start + all.take(0) == start);
    for i in 0..definitions.len()
        invariant
            f == (|d: SearchDefinition| definition_item(catalog, language, d)),
            all == definitions@.map_values(f),
            items_view(items@) == start + all.take(i as int),
    {
        let item = translated_search_item(&definitions[i], language, catalog);
        proof {
            lemma_items_push(items@, item);
            assert(start + all.take(i + 1) == (start + all.take(i as int)).push(all[i as int]));
        }
        items.push(item);
    }
    assert(all.take(definitions@.len() as int) == all);
}

fn push_models(
    items: &mut Vec<SettingsSearchItem>,
    models: &Vec<ModelConfig>,
    language: Language,
    catalog: &Catalog,
)
    ensures
        items_view(final(items)@) == items_view(old(items)@) + models@.map_values(
            |m: ModelConfig| model_item(catalog, language, m),
        ),
{
    let ghost f = |m: ModelConfig| model_item(catalog, language, m);
    let ghost all = models@.map_values(f);
    let ghost start = items_view(items@);
    assert(start + all.take(0) == start);
    for i in 0..models.len()
        invariant
            f == (|m: ModelConfig| model_item(catalog, language, m)),
            all == models@.map_values(f),
            items_view(items@) == start + all.take(i as int),
    {
        let item = model_search_item(&models[i], language, catalog);
        proof {
            lemma_items_push(items@, item);
            assert(start + all.take(i + 1) == (start + all.take(i as int)).push(all[i as int]));
        }
        items.push(item);
    }
    assert(all.take(models@.len() as int) == all);
}

fn action_definitions() -> (r: Vec<SearchDefinition>)
    ensures
        r@ == all_actions().map_values(|a: KeybindingAction| action_definition(a)),
{
    let actions = keybinding_actions();
    let mut out: Vec<SearchDefinition> = Vec::new();
    let ghost all = all_actions().map_values(|a: KeybindingAction| action_definition(a));
    for i in 0..actions.len()
        invariant
            actions@ == all_actions(),
            all == all_actions().map_values(|a: KeybindingAction| action_definition(a)),
            out@ == all.take(i as int),
    {
        out.push(
            SearchDefinition {
                target: keybinding_target(actions[i]),
                section: "settings.keybindings",
                title: keybinding_action_key(actions[i]),
                description: Some("settings.keybindings_help"),
                keywords: "keyboard hotkey shortcut disable capture 键盘 热键 快捷键 禁用 录入",
            },
        );
        assert(all.take(i + 1) == all.take(i as int).push(all[i as int]));
    }
    assert(all.take(actions@.len() as int) == all);
    out
}

/// All finds: the settings, the shortcuts, the built-in models and the user's models.
pub fn settings_search_items(
    builtin_models: &Vec<ModelConfig>,
    custom_models: &Vec<ModelConfig>,
    language: Language,
    catalog: &Catalog,
) -> (r: Vec<SettingsSearchItem>)
    ensures
        items_view(r@) == search_items(catalog, language, builtin_models@, custom_models@),
{
    let mut items: Vec<SettingsSearchItem> = Vec::new();
    let ghost f = |d: SearchDefinition| definition_item(catalog, language, d);
    push_definitions(&mut items, &appearance_definitions(), language, catalog);
    push_definitions(&mut items, &skin_definitions(), language, catalog);
    push_definitions(&mut items, &color_definitions(), language, catalog);
    push_definitions(&mut items, &behavior_definitions(), language, catalog);
    push_definitions(&mut items, &local_ai_definitions(), language, catalog);
    push_definitions(&mut items, &closing_definitions(), language, catalog);
    assert(items_view(items@) == search_table().map_values(f));
    push_definitions(&mut items, &action_definitions(), language, catalog);
    assert(all_actions().map_values(|a: KeybindingAction| action_definition(a)).map_values(f)
        == all_actions().map_values(
        |a: KeybindingAction| definition_item(catalog, language, action_definition(a)),
    ));
    push_models(&mut items, builtin_models, language, catalog);
    push_models(&mut items, custom_models, language, catalog);
    items
}

// ---------------------------------------------------------------------------------------------
// How well a query fits
// ---------------------------------------------------------------------------------------------

/// The first position from `from` on at which `c` stands.
pub open spec fn next_at(s: Seq<char>, c: char, from: int) -> Option<int>
    decreases s.len() - from,
{
    if from < 0 || from >= s.len() {
        None
    } else if s[from] == c {
        Some(from)
    } else {
        next_at(s, c, from + 1)
    }
}

/// The position of the last character of `needle`, when each of its characters in turn is taken
/// at its next position in `s`.
pub open spec fn spread_end(needle: Seq<char>, s: Seq<char>, from: int) -> Option<int>
    decreases needle.len(),
{
    if needle.len() == 0 {
        None
    } else {
        match next_at(s, needle[0], from) {
            None => None,
            Some(at) => if needle.len() == 1 {
                Some(at)
            } else {
                spread_end(needle.drop_first(), s, at + 1)
            },
        }
    }
}

/// `a - b`, not below zero.
pub open spec fn less_by(a: nat, b: int) -> nat {
    if b >= a {
        0
    } else if b <= 0 {
        a
    } else {
        (a - b) as nat
    }
}

/// The score of a needle whose characters stand in `s` in order: the closer together, the
/// higher.
pub open spec fn spread_score(needle: Seq<char>, s: Seq<char>) -> Option<nat> {
    if needle.len() == 0 {
        Some(0)
    } else {
        match spread_end(needle, s, 0) {
            Some(end) => Some(less_by(300, end - next_at(s, needle[0], 0)->0)),
            None => None,
        }
    }
}

/// The first position of `pattern` in `s`.
pub open spec fn position_of(s: Seq<char>, pattern: Seq<char>) -> int {
    choose|at: int| first_at(s, pattern, at)
}

/// The number of bytes before a position.
pub open spec fn byte_offset(s: Seq<char>, at: int) -> int {
    encode_utf8(s.take(at)).len() as usize as int
}

/// The score of one word of a query.
pub open spec fn word_score(word: Seq<char>, s: Seq<char>) -> Option<nat> {
    if holds_text(s, word) {
        let offset = byte_offset(s, position_of(s, word));
        Some(less_by(500, if offset < 400 {
            offset
        } else {
            400
        }))
    } else {
        spread_score(word, s)
    }
}

/// The score of all words of a query; none where one does not fit.
pub open spec fn words_score(list: Seq<Seq<char>>, s: Seq<char>) -> Option<nat>
    decreases list.len(),
{
    if list.len() == 0 {
        Some(0)
    } else {
        match (words_score(list.drop_last(), s), word_score(list.last(), s)) {
            (Some(a), Some(b)) => Some(a + b),
            _ => None,
        }
    }
}

/// How well a query in lower case fits a text in lower case: best where it is the text, then
/// where it stands in the text, else by its words.
pub open spec fn folded_score(query: Seq<char>, s: Seq<char>) -> Option<nat> {
    if query.len() == 0 {
        None
    } else if s == query {
        Some(1000)
    } else if holds_text(s, query) {
        Some(less_by(800, byte_offset(s, position_of(s, query))))
    } else {
        words_score(words(query), s)
    }
}

/// How well a query fits a text, whatever the case of their letters. A score that a machine
/// integer cannot hold counts as the largest that it can.
pub open spec fn fit(query: Seq<char>, candidate: Seq<char>) -> Option<nat> {
    if trimmed(query).len() == 0 {
        None
    } else {
        capped(folded_score(lowercase(trimmed(query)), lowercase(candidate)))
    }
}

/// A score, at most the largest machine integer.
pub open spec fn capped(score: Option<nat>) -> Option<nat> {
    match score {
        Some(n) => if n > usize::MAX {
            Some(usize::MAX as nat)
        } else {
            Some(n)
        },
        None => None,
    }
}

/// The score of a needle whose characters stand in `haystack` in order.
pub fn subsequence_score(needle: &str, haystack: &str) -> (r: Option<usize>)
    ensures
        match r {
            Some(score) => spread_score(needle@, haystack@) == Some(score as nat),
            None => spread_score(needle@, haystack@) is None,
        },
{
    let n = chars_of(needle);
    let h = chars_of(haystack);
    if n.len() == 0 {
        return Some(0);
    }
    let mut matched: usize = 0;
    let mut first: usize = 0;
    assert(n@.skip(0) == n@);
    for i in 0..h.len()
        invariant
            n@ == needle@,
            h@ == haystack@,
            matched < n.len(),
            spread_end(n@, h@, 0) == spread_end(n@.skip(matched as int), h@, i as int),
            matched == 0 ==> next_at(h@, n@[0], 0) == next_at(h@, n@[0], i as int),
            matched > 0 ==> next_at(h@, n@[0], 0) == Some(first as int) && first < i,
    {
        let ghost rest = n@.skip(matched as int);
        assert(rest[0] == n@[matched as int]);
        if h[i] == n[matched] {
            if matched == 0 {
                first = i;
            }
            matched = matched + 1;
            assert(rest.drop_first() == n@.skip(matched as int));
            if matched == n.len() {
                let span: usize = i - first;
                assert(spread_end(n@, h@, 0) == Some(i as int));
                return Some(if span >= 300 {
                    0
                } else {
                    300 - span
                });
            }
        } else {
            assert(next_at(h@, rest[0], i as int) == next_at(h@, rest[0], i + 1));
        }
    }
    None
}

fn offset_of(s: &str, at: usize) -> (r: usize)
    requires
        at <= s@.len(),
    ensures
        r == byte_offset(s@, at as int),
{
    let part = s.substring_char(0, at);
    assert(s@.subrange(0, at as int) == s@.take(at as int));
    part.len()
}

fn offset_text(s: &str, pattern: &str) -> (r: Option<usize>)
    ensures
        match r {
            Some(offset) => holds_text(s@, pattern@) && offset == byte_offset(
                s@,
                position_of(s@, pattern@),
            ),
            None => !holds_text(s@, pattern@),
        },
{
    match find_text(&chars_of(s), &chars_of(pattern)) {
        Some(at) => {
            proof {
                assert(first_at(s@, pattern@, at as int));
                crate::search::lemma_first_at_unique(
                    s@,
                    pattern@,
                    at as int,
                    position_of(s@, pattern@),
                );
            }
            Some(offset_of(s, at))
        },
        None => None,
    }
}

fn word_fit(word: &str, s: &str) -> (r: Option<usize>)
    ensures
        match r {
            Some(score) => word_score(word@, s@) == Some(score as nat),
            None => word_score(word@, s@) is None,
        },
{
    match offset_text(s, word) {
        Some(offset) => Some(
            500 - (if offset < 400 {
                offset
            } else {
                400
            }),
        ),
        None => subsequence_score(word, s),
    }
}

/// Where one word does not fit, the whole query does not.
proof fn lemma_words_none(list: Seq<Seq<char>>, s: Seq<char>, i: int)
    requires
        0 <= i <= list.len(),
        words_score(list.take(i), s) is None,
    ensures
        words_score(list, s) is None,
    decreases list.len() - i,
{
    if i == list.len() {
        assert(list.take(i) == list);
    } else {
        assert(list.take(i + 1).drop_last() == list.take(i));
        lemma_words_none(list, s, i + 1);
    }
}

/// How well a query in lower case fits a text in lower case.
pub fn score_folded(query: &str, candidate: &str) -> (r: Option<usize>)
    ensures
        match r {
            Some(score) => capped(folded_score(query@, candidate@)) == Some(score as nat),
            None => folded_score(query@, candidate@) is None,
        },
{
    if query.is_empty() {
        return None;
    }
    if same(candidate, query) {
        return Some(1000);
    }
    match offset_text(candidate, query) {
        Some(offset) => {
            return Some(if offset >= 800 {
                0
            } else {
                800 - offset
            });
        },
        None => {},
    }
    let list = split_words(query);
    let ghost all = texts(list@);
    let mut total: usize = 0;
    assert(all.take(0) == Seq::<Seq<char>>::empty());
    for i in 0..list.len()
        invariant
            all == texts(list@),
            capped(words_score(all.take(i as int), candidate@)) == Some(total as nat),
            folded_score(query@, candidate@) == words_score(all, candidate@),
    {
        assert(all.take(i + 1).drop_last() == all.take(i as int));
        assert(all.take(i + 1).last() == list@[i as int]@);
        match word_fit(list[i].as_str(), candidate) {
            Some(score) => {
                total = if score > usize::MAX - total {
                    usize::MAX
                } else {
                    total + score
                };
            },
            None => {
                proof {
                    lemma_words_none(all, candidate@, i + 1);
                }
                return None;
            },
        }
    }
    assert(all.take(list@.len() as int) == all);
    Some(total)
}

/// How well a query fits a text, whatever the case of their letters.
pub fn fuzzy_score(query: &str, candidate: &str) -> (r: Option<usize>)
    ensures
        match r {
            Some(score) => fit(query@, candidate@) == Some(score as nat),
            None => fit(query@, candidate@) is None,
        },
{
    let wanted = trim(query);
    if wanted.as_str().is_empty() {
        return None;
    }
    score_folded(wanted.as_str().to_lowercase().as_str(), candidate.to_lowercase().as_str())
}

// ---------------------------------------------------------------------------------------------
// The finds in order
// ---------------------------------------------------------------------------------------------

/// A find with its score.
#[derive(Clone, Debug, PartialEq)]
pub struct ScoredItem {
    pub score: usize,
    pub item: SettingsSearchItem,
}

/// The texts of a find with its score.
#[verifier::ext_equal]
pub struct ScoredText {
    pub score: nat,
    pub item: SearchItemText,
}

/// A find comes first by its score, then by its title.
pub open spec fn comes_first(a: ScoredText, b: ScoredText) -> bool {
    a.score > b.score || (a.score == b.score && text_less(a.item.title, b.item.title))
}

/// The order of finds.
pub open spec fn find_order() -> spec_fn(ScoredText, ScoredText) -> bool {
    |a: ScoredText, b: ScoredText| comes_first(a, b)
}

/// The finds that a query fits, with their scores.
pub open spec fn scored(query: Seq<char>, items: Seq<SearchItemText>) -> Seq<ScoredText>
    decreases items.len(),
{
    if items.len() == 0 {
        Seq::empty()
    } else {
        let before = scored(query, items.drop_last());
        match fit(query, items.last().search_text) {
            Some(score) => before.push(ScoredText { score, item: items.last() }),
            None => before,
        }
    }
}

/// The finds that a query fits, the best first, those of one score by their titles.
pub open spec fn search_finds(query: Seq<char>, items: Seq<SearchItemText>) -> Seq<SearchItemText> {
    sorted_by(scored(query, items), find_order()).map_values(|s: ScoredText| s.item)
}

spec fn scored_text(s: ScoredItem) -> ScoredText {
    ScoredText { score: s.score as nat, item: s.item@ }
}

spec fn scored_texts(s: Seq<ScoredItem>) -> Seq<ScoredText> {
    s.map_values(|x: ScoredItem| scored_text(x))
}

spec fn item_order() -> spec_fn(ScoredItem, ScoredItem) -> bool {
    |a: ScoredItem, b: ScoredItem| comes_first(scored_text(a), scored_text(b))
}

fn insert_item(list: &mut Vec<ScoredItem>, entry: ScoredItem)
    ensures
        final(list)@ == crate::sort::insert_sorted(old(list)@, entry, item_order()),
{
    let mut at: usize = list.len();
    while at > 0 && (entry.score > list[at - 1].score || (entry.score == list[at - 1].score && less(
        entry.item.title.as_str(),
        list[at - 1].item.title.as_str(),
    )))
        invariant
            at <= list@.len(),
            forall|i: int| at <= i < list@.len() ==> item_order()(entry, #[trigger] list@[i]),
        decreases at,
    {
        at = at - 1;
    }
    proof {
        lemma_insert_at(list@, entry, item_order(), at as int);
    }
    list.insert(at, entry);
}

/// The finds that a query fits, in the order in which they are shown.
pub fn find_items(query: &str, items: Vec<SettingsSearchItem>) -> (r: Vec<SettingsSearchItem>)
    ensures
        items_view(r@) == search_finds(query@, items_view(items@)),
{
    let ghost all = items_view(items@);
    let ghost given = items@;
    let mut rest = items;
    let count: usize = rest.len();
    let mut left: usize = count;
    let mut list: Vec<ScoredItem> = Vec::new();
    let ghost mut unsorted: Seq<ScoredItem> = Seq::empty();
    assert(scored_texts(unsorted) == scored(query@, all.take(0)));
    while left > 0
        invariant
            left <= count == given.len(),
            all == items_view(given),
            rest@ == given.skip(count - left),
            list@ == sorted_by(unsorted, item_order()),
            scored_texts(unsorted) == scored(query@, all.take(count - left)),
        decreases left,
    {
        let ghost i = count - left;
        let item = rest.remove(0);
        assert(all.take(i + 1).drop_last() == all.take(i));
        assert(all.take(i + 1).last() == item@);
        match fuzzy_score(query, item.search_text.as_str()) {
            Some(score) => {
                let entry = ScoredItem { score, item };
                let ghost before = unsorted;
                proof {
                    unsorted = unsorted.push(entry);
                    assert(unsorted.drop_last() == before);
                    assert(scored_texts(unsorted) == scored_texts(before).push(scored_text(entry)));
                }
                insert_item(&mut list, entry);
            },
            None => {},
        }
        left = left - 1;
    }
    assert(all.take(count as int) == all);
    let ghost ordered = list@;
    proof {
        let f = |x: ScoredItem| scored_text(x);
        assert forall|a: ScoredItem, b: ScoredItem| #[trigger]
            item_order()(a, b) == find_order()(f(a), f(b)) by {}
        lemma_sort_map(unsorted, item_order(), f, find_order());
    }
    let ghost g = |s: ScoredText| s.item;
    let ghost wanted = scored_texts(ordered).map_values(g);
    let mut out: Vec<SettingsSearchItem> = Vec::new();
    let total: usize = list.len();
    let mut todo: usize = total;
    while todo > 0
        invariant
            todo <= total == ordered.len(),
            g == (|s: ScoredText| s.item),
            wanted == scored_texts(ordered).map_values(g),
            list@ == ordered.skip(total - todo),
            items_view(out@) == wanted.take(total - todo),
        decreases todo,
    {
        let entry = list.remove(0);
        let ghost i = total - todo;
        proof {
            assert(entry == ordered[i]);
            lemma_items_push(out@, entry.item);
            assert(wanted[i] == entry.item@);
            assert(wanted.take(i + 1) == wanted.take(i).push(wanted[i]));
        }
        out.push(entry.item);
        todo = todo - 1;
    }
    assert(wanted.take(total as int) == wanted);
    out
}

/// The settings that a query fits, the best first.
pub fn settings_search_matches(
    query: &str,
    builtin_models: &Vec<ModelConfig>,
    custom_models: &Vec<ModelConfig>,
    language: Language,
    catalog: &Catalog,
) -> (r: Vec<SettingsSearchItem>)
    ensures
        items_view(r@) == search_finds(
            query@,
            search_items(catalog, language, builtin_models@, custom_models@),
        ),
{
    let items = settings_search_items(builtin_models, custom_models, language, catalog);
    find_items(query, items)
}

// ---------------------------------------------------------------------------------------------
// Laws
// ---------------------------------------------------------------------------------------------

/// Whether the characters of `needle` stand in `s` at these positions, one after the other.
pub open spec fn spreads_at(needle: Seq<char>, s: Seq<char>, from: int, at: Seq<int>) -> bool {
    &&& at.len() == needle.len()
    &&& forall|i: int|
        0 <= i < at.len() ==> from <= #[trigger] at[i] < s.len() && s[at[i]] == needle[i]
    &&& forall|i: int, j: int| 0 <= i < j < at.len() ==> #[trigger] at[i] < #[trigger] at[j]
}

/// The next position is the first one of the character.
proof fn lemma_next_at(s: Seq<char>, c: char, from: int)
    requires
        0 <= from,
    ensures
        next_at(s, c, from) matches Some(p) ==> from <= p < s.len() && s[p] == c,
        forall|i: int|
            from <= i < s.len() && #[trigger] s[i] == c ==> (next_at(s, c, from) matches Some(p) && p
                <= i),
    decreases s.len() - from,
{
    if from < s.len() && s[from] != c {
        lemma_next_at(s, c, from + 1);
        assert forall|i: int| from <= i < s.len() && #[trigger] s[i] == c implies (next_at(
            s,
            c,
            from,
        ) matches Some(p) && p <= i) by {
            if i == from {
                assert(false);
            }
        }
    }
}

/// Taking each character at its next position finds a place for all of them, whenever there is
/// one.
pub proof fn law_spread_found(needle: Seq<char>, s: Seq<char>, from: int)
    requires
        0 <= from,
        needle.len() > 0,
    ensures
        spread_end(needle, s, from) is Some <==> exists|at: Seq<int>|
            spreads_at(needle, s, from, at),
    decreases needle.len(),
{
    lemma_next_at(s, needle[0], from);
    if spread_end(needle, s, from) is Some {
        let p = next_at(s, needle[0], from)->0;
        if needle.len() == 1 {
            assert(spreads_at(needle, s, from, seq![p]));
        } else {
            let rest = needle.drop_first();
            let next = p + 1;
            law_spread_found(rest, s, next);
            let tail = choose|at: Seq<int>| spreads_at(rest, s, next, at);
            let at = seq![p] + tail;
            assert forall|i: int| 0 <= i < at.len() implies from <= #[trigger] at[i] < s.len()
                && s[at[i]] == needle[i] by {
                if i > 0 {
                    assert(at[i] == tail[i - 1]);
                    assert(rest[i - 1] == needle[i]);
                }
            }
            assert forall|i: int, j: int| 0 <= i < j < at.len() implies #[trigger] at[i]
                < #[trigger] at[j] by {
                assert(at[j] == tail[j - 1]);
                if i > 0 {
                    assert(at[i] == tail[i - 1]);
                }
            }
            assert(spreads_at(needle, s, from, at));
        }
    }
    if exists|at: Seq<int>| spreads_at(needle, s, from, at) {
        let at = choose|at: Seq<int>| spreads_at(needle, s, from, at);
        assert(s[at[0]] == needle[0]);
        let p = next_at(s, needle[0], from)->0;
        if needle.len() > 1 {
            let rest = needle.drop_first();
            let tail = at.skip(1);
            assert forall|i: int| 0 <= i < tail.len() implies p + 1 <= #[trigger] tail[i] < s.len()
                && s[tail[i]] == rest[i] by {
                assert(tail[i] == at[i + 1]);
                assert(at[0] < at[i + 1]);
            }
            assert forall|i: int, j: int| 0 <= i < j < tail.len() implies #[trigger] tail[i]
                < #[trigger] tail[j] by {
                assert(at[i + 1] < at[j + 1]);
            }
            assert(spreads_at(rest, s, p + 1, tail));
            law_spread_found(rest, s, p + 1);
        }
    }
}

/// A text that is the query scores higher than any text that only holds it, and nothing fits an
/// empty query.
pub proof fn law_exact_scores_highest(query: Seq<char>, s: Seq<char>)
    ensures
        query.len() > 0 ==> folded_score(query, query) == Some(1000nat),
        query.len() > 0 && s != query && holds_text(s, query) ==> (folded_score(query, s) matches Some(
            score,
        ) && score <= 800),
        query.len() == 0 ==> folded_score(query, s) is None,
{
}

/// The order of finds is an order.
pub proof fn law_find_order()
    ensures
        is_order(find_order()),
{
    let before = find_order();
    assert forall|a: ScoredText| !#[trigger] before(a, a) by {
        crate::search::lemma_less_irreflexive(a.item.title);
    }
    assert forall|a: ScoredText, b: ScoredText, c: ScoredText|
        #![trigger before(a, b), before(b, c)]
        before(a, b) && before(b, c) implies before(a, c) by {
        if a.score == b.score && b.score == c.score {
            crate::search::lemma_less_transitive(a.item.title, b.item.title, c.item.title);
        }
    }
    assert forall|a: ScoredText, b: ScoredText, c: ScoredText|
        #![trigger before(a, b), before(b, c)]
        !before(a, b) && !before(b, c) implies !before(a, c) by {
        if before(a, c) && a.score == c.score {
            let (x, y, z) = (a.item.title, b.item.title, c.item.title);
            crate::search::lemma_less_total(x, y);
            crate::search::lemma_less_total(y, z);
            if x != y && y != z {
                crate::search::lemma_less_transitive(z, y, x);
                crate::search::lemma_less_transitive(x, z, x);
            }
            crate::search::lemma_less_irreflexive(x);
        }
    }
}

/// A find with the score that the query has for it.
pub open spec fn with_score(query: Seq<char>, item: SearchItemText) -> ScoredText {
    ScoredText { score: fit(query, item.search_text).unwrap(), item }
}

/// Whether the query fits a setting.
pub open spec fn fits_item(query: Seq<char>) -> spec_fn(SearchItemText) -> bool {
    |item: SearchItemText| fit(query, item.search_text) is Some
}

/// The scored finds are the settings that the query fits, each with its score, in their order.
proof fn lemma_scored_filter(query: Seq<char>, items: Seq<SearchItemText>)
    ensures
        scored(query, items) == items.filter(fits_item(query)).map_values(
            |item: SearchItemText| with_score(query, item),
        ),
    decreases items.len(),
{
    reveal(Seq::filter);
    let keep = fits_item(query);
    let give = |item: SearchItemText| with_score(query, item);
    if items.len() > 0 {
        lemma_scored_filter(query, items.drop_last());
        let before = items.drop_last().filter(keep);
        if keep(items.last()) {
            assert(items.filter(keep) == before.push(items.last()));
            assert(before.push(items.last()).map_values(give) == before.map_values(give).push(
                give(items.last()),
            ));
        }
    } else {
        assert(items.filter(keep).map_values(give) == Seq::<ScoredText>::empty());
    }
}

/// The finds are a rearrangement of the settings that the query fits, each with its score: the
/// best first, those of one score by their titles, and those alike in both as they stand in the
/// settings.
pub proof fn law_finds_in_order(query: Seq<char>, items: Seq<SearchItemText>, like: ScoredText)
    ensures
        ({
            let fitting = items.filter(fits_item(query)).map_values(
                |item: SearchItemText| with_score(query, item),
            );
            let ordered = sorted_by(fitting, find_order());
            &&& search_finds(query, items) == ordered.map_values(|s: ScoredText| s.item)
            &&& ordered.to_multiset() == fitting.to_multiset()
            &&& crate::sort::is_sorted(ordered, find_order())
            &&& ordered.filter(crate::sort::is_tied(like, find_order())) == fitting.filter(
                crate::sort::is_tied(like, find_order()),
            )
        }),
{
    law_find_order();
    lemma_scored_filter(query, items);
    crate::sort::law_sorted(scored(query, items), find_order());
    crate::sort::law_sort_is_stable(scored(query, items), find_order(), like);
}

/// A blank query fits nothing, and a search for it finds nothing.
pub proof fn law_blank_query_finds_nothing(query: Seq<char>, items: Seq<SearchItemText>)
    requires
        trimmed(query).len() == 0,
    ensures
        search_finds(query, items) == Seq::<SearchItemText>::empty(),
    decreases items.len(),
{
    lemma_blank_scores_nothing(query, items);
    assert(sorted_by(scored(query, items), find_order()) == Seq::<ScoredText>::empty());
}

proof fn lemma_blank_scores_nothing(query: Seq<char>, items: Seq<SearchItemText>)
    requires
        trimmed(query).len() == 0,
    ensures
        scored(query, items) == Seq::<ScoredText>::empty(),
    decreases items.len(),
{
    if items.len() > 0 {
        lemma_blank_scores_nothing(query, items.drop_last());
    }
}

proof fn lemma_scored_holds(query: Seq<char>, items: Seq<SearchItemText>, item: SearchItemText)
    ensures
        (exists|i: int| 0 <= i < scored(query, items).len() && (#[trigger] scored(query, items)[i]).item == item)
            <==> items.contains(item) && fit(query, item.search_text) is Some,
    decreases items.len(),
{
    let list = scored(query, items);
    if items.len() > 0 {
        let before = items.drop_last();
        lemma_scored_holds(query, before, item);
        let shorter = scored(query, before);
        if exists|i: int| 0 <= i < list.len() && (#[trigger] list[i]).item == item {
            let i = choose|i: int| 0 <= i < list.len() && (#[trigger] list[i]).item == item;
            if i < shorter.len() {
                assert(shorter[i].item == item);
                let j = choose|j: int| 0 <= j < before.len() && before[j] == item;
                assert(items[j] == item);
            } else {
                assert(items[items.len() - 1] == item);
            }
        }
        if items.contains(item) && fit(query, item.search_text) is Some {
            let j = choose|j: int| 0 <= j < items.len() && items[j] == item;
            if j < before.len() {
                assert(before[j] == item);
                let i = choose|i: int|
                    0 <= i < shorter.len() && (#[trigger] shorter[i]).item == item;
                assert(list[i].item == item);
            } else {
                assert(list[list.len() - 1].item == item);
            }
        }
    }
}

/// A search finds exactly the settings that the query fits.
pub proof fn law_search_finds_what_fits(
    query: Seq<char>,
    items: Seq<SearchItemText>,
    item: SearchItemText,
)
    ensures
        search_finds(query, items).contains(item) <==> items.contains(item) && fit(
            query,
            item.search_text,
        ) is Some,
{
    broadcast use vstd::seq_lib::group_to_multiset_ensures;

    law_find_order();
    lemma_scored_holds(query, items, item);
    let list = scored(query, items);
    let ordered = sorted_by(list, find_order());
    crate::sort::law_sorted(list, find_order());
    let finds = search_finds(query, items);
    if finds.contains(item) {
        let i = choose|i: int| 0 <= i < finds.len() && finds[i] == item;
        assert(ordered[i].item == item);
        assert(ordered.to_multiset().contains(ordered[i]));
        assert(list.contains(ordered[i]));
        let j = choose|j: int| 0 <= j < list.len() && list[j] == ordered[i];
        assert(list[j].item == item);
    }
    if exists|i: int| 0 <= i < list.len() && (#[trigger] list[i]).item == item {
        let i = choose|i: int| 0 <= i < list.len() && (#[trigger] list[i]).item == item;
        assert(list.to_multiset().contains(list[i]));
        assert(ordered.contains(list[i]));
        let j = choose|j: int| 0 <= j < ordered.len() && ordered[j] == list[i];
        assert(finds[j] == item);
    }
}

proof fn lemma_words_filled(query: Seq<char>)
    ensures
        forall|i: int| 0 <= i < words(query).len() ==> (#[trigger] words(query)[i]).len() > 0,
{
    broadcast use vstd::seq_lib::group_filter_ensures;

    let list = words(query);
    assert forall|i: int| 0 <= i < list.len() implies (#[trigger] list[i]).len() > 0 by {
        assert(crate::search::is_filled()(list[i]));
    }
}

/// A word has a score exactly when it stands in the text, or its characters do in order.
proof fn lemma_word_fits(word: Seq<char>, s: Seq<char>)
    requires
        word.len() > 0,
    ensures
        word_score(word, s) is Some <==> holds_text(s, word) || exists|at: Seq<int>|
            spreads_at(word, s, 0, at),
{
    law_spread_found(word, s, 0);
}

proof fn lemma_words_fit(list: Seq<Seq<char>>, s: Seq<char>)
    ensures
        words_score(list, s) is Some <==> forall|i: int|
            0 <= i < list.len() ==> word_score(#[trigger] list[i], s) is Some,
    decreases list.len(),
{
    if list.len() > 0 {
        let before = list.drop_last();
        lemma_words_fit(before, s);
        if words_score(list, s) is Some {
            assert forall|i: int| 0 <= i < list.len() implies word_score(
                #[trigger] list[i],
                s,
            ) is Some by {
                if i < before.len() {
                    assert(word_score(before[i], s) is Some);
                }
            }
        }
        if forall|i: int| 0 <= i < list.len() ==> word_score(#[trigger] list[i], s) is Some {
            assert forall|i: int| 0 <= i < before.len() implies word_score(
                #[trigger] before[i],
                s,
            ) is Some by {
                assert(word_score(list[i], s) is Some);
            }
            assert(word_score(list[list.len() - 1], s) is Some);
        }
    }
}

/// A query that does not stand in a text as a whole fits it exactly when each of its words does:
/// when the word stands in the text, or its characters stand there in order. Where any one word
/// has no such place, there is no score.
pub proof fn law_every_word_must_fit(query: Seq<char>, s: Seq<char>)
    requires
        query.len() > 0,
        !holds_text(s, query),
    ensures
        folded_score(query, s) is Some <==> forall|i: int|
            0 <= i < words(query).len() ==> holds_text(s, #[trigger] words(query)[i]) || exists|
                at: Seq<int>,
            |
                spreads_at(words(query)[i], s, 0, at),
{
    if s == query {
        assert(s.subrange(0, s.len() as int) == query);
        assert(crate::search::stands_at(s, query, 0));
    }
    let list = words(query);
    lemma_words_filled(query);
    lemma_words_fit(list, s);
    assert forall|i: int| 0 <= i < list.len() implies (word_score(#[trigger] list[i], s) is Some
        <==> holds_text(s, list[i]) || exists|at: Seq<int>| spreads_at(list[i], s, 0, at)) by {
        lemma_word_fits(list[i], s);
    }
}

/// The same of a search: whatever the case of the letters and the whitespace around the query,
/// a query that does not stand in the text as a whole fits it exactly when each of its words does.
pub proof fn law_every_word_of_a_search_must_fit(query: Seq<char>, candidate: Seq<char>)
    requires
        trimmed(query).len() > 0,
        lowercase(trimmed(query)).len() > 0,
        !holds_text(lowercase(candidate), lowercase(trimmed(query))),
    ensures
        fit(query, candidate) is Some <==> forall|i: int|
            0 <= i < words(lowercase(trimmed(query))).len() ==> holds_text(
                lowercase(candidate),
                #[trigger] words(lowercase(trimmed(query)))[i],
            ) || exists|at: Seq<int>|
                spreads_at(words(lowercase(trimmed(query)))[i], lowercase(candidate), 0, at),
{
    law_every_word_must_fit(lowercase(trimmed(query)), lowercase(candidate));
}

proof fn lemma_first_is_one(s: Seq<char>, pattern: Seq<char>, at: int)
    requires
        first_at(s, pattern, at),
    ensures
        holds_text(s, pattern),
        position_of(s, pattern) == at,
{
    let chosen = position_of(s, pattern);
    assert(first_at(s, pattern, chosen));
    if chosen < at {
        assert(!crate::search::stands_at(s, pattern, chosen));
    }
    if at < chosen {
        assert(!crate::search::stands_at(s, pattern, at));
    }
}

/// A query that first stands in a text behind so many bytes scores 800 less those bytes, and not
/// less than nothing: the further in front, the higher.
pub proof fn law_score_of_a_query_in_the_text(query: Seq<char>, s: Seq<char>, at: int)
    requires
        query.len() > 0,
        s != query,
        first_at(s, query, at),
        encode_utf8(s.take(at)).len() <= usize::MAX,
    ensures
        encode_utf8(s.take(at)).len() <= 800 ==> folded_score(query, s) == Some(
            (800 - encode_utf8(s.take(at)).len()) as nat,
        ),
        encode_utf8(s.take(at)).len() > 800 ==> folded_score(query, s) == Some(0nat),
{
    lemma_first_is_one(s, query, at);
}

/// A word that first stands in a text behind so many bytes scores 500 less those bytes, and never
/// less than 100.
pub proof fn law_score_of_a_word_in_the_text(word: Seq<char>, s: Seq<char>, at: int)
    requires
        first_at(s, word, at),
        encode_utf8(s.take(at)).len() <= usize::MAX,
    ensures
        encode_utf8(s.take(at)).len() <= 400 ==> word_score(word, s) == Some(
            (500 - encode_utf8(s.take(at)).len()) as nat,
        ),
        encode_utf8(s.take(at)).len() > 400 ==> word_score(word, s) == Some(100nat),
{
    lemma_first_is_one(s, word, at);
}

proof fn lemma_next_is(s: Seq<char>, c: char, from: int, at: int)
    requires
        0 <= from <= at < s.len(),
        s[at] == c,
        forall|k: int| from <= k < at ==> #[trigger] s[k] != c,
    ensures
        next_at(s, c, from) == Some(at),
    decreases at - from,
{
    if from < at {
        assert(s[from] != c);
        lemma_next_is(s, c, from + 1, at);
    }
}

/// Whether each character of `needle` stands at the first place of `s` behind the one before it.
pub open spec fn spreads_leftmost(
    needle: Seq<char>,
    s: Seq<char>,
    from: int,
    at: Seq<int>,
) -> bool {
    &&& spreads_at(needle, s, from, at)
    &&& forall|i: int, k: int|
        #![trigger at[i], s[k]]
        0 <= i < at.len() && (if i == 0 {
            from
        } else {
            at[i - 1] + 1
        }) <= k < at[i] ==> s[k] != needle[i]
}

proof fn lemma_leftmost_end(needle: Seq<char>, s: Seq<char>, from: int, at: Seq<int>)
    requires
        0 <= from,
        needle.len() > 0,
        spreads_leftmost(needle, s, from, at),
    ensures
        spread_end(needle, s, from) == Some(at.last()),
        next_at(s, needle[0], from) == Some(at[0]),
    decreases needle.len(),
{
    assert forall|k: int| from <= k < at[0] implies #[trigger] s[k] != needle[0] by {}
    lemma_next_is(s, needle[0], from, at[0]);
    if needle.len() > 1 {
        let rest = needle.drop_first();
        let tail = at.drop_first();
        let next = at[0] + 1;
        assert forall|i: int| 0 <= i < tail.len() implies next <= #[trigger] tail[i] < s.len()
            && s[tail[i]] == rest[i] by {
            assert(tail[i] == at[i + 1]);
            assert(at[0] < at[i + 1]);
        }
        assert forall|i: int, j: int| 0 <= i < j < tail.len() implies #[trigger] tail[i]
            < #[trigger] tail[j] by {
            assert(at[i + 1] < at[j + 1]);
        }
        assert forall|i: int, k: int|
            #![trigger tail[i], s[k]]
            0 <= i < tail.len() && (if i == 0 {
                next
            } else {
                tail[i - 1] + 1
            }) <= k < tail[i] implies s[k] != rest[i] by {
            assert(tail[i] == at[i + 1]);
            if i > 0 {
                assert(tail[i - 1] == at[i]);
            }
            assert(rest[i] == needle[i + 1]);
        }
        lemma_leftmost_end(rest, s, next, tail);
        assert(tail.last() == at.last());
    }
}

/// A word that does not stand in a text, but whose characters do in order, scores 300 less the
/// distance from its first character to its last, and not less than nothing: the closer together,
/// the higher.
pub proof fn law_score_of_a_spread_word(word: Seq<char>, s: Seq<char>, at: Seq<int>)
    requires
        word.len() > 0,
        !holds_text(s, word),
        spreads_leftmost(word, s, 0, at),
    ensures
        at.last() - at[0] <= 300 ==> word_score(word, s) == Some(
            (300 - (at.last() - at[0])) as nat,
        ),
        at.last() - at[0] > 300 ==> word_score(word, s) == Some(0nat),
{
    lemma_leftmost_end(word, s, 0, at);
    if at.len() > 1 {
        assert(at[0] < at[at.len() - 1]);
    }
}

/// The score of two lists of words is the sum of their scores, and one word alone has its own.
pub proof fn law_scores_add_up(a: Seq<Seq<char>>, b: Seq<Seq<char>>, word: Seq<char>, s: Seq<char>)
    ensures
        words_score(a, s) is Some && words_score(b, s) is Some ==> words_score(a + b, s) == Some(
            words_score(a, s)->0 + words_score(b, s)->0,
        ),
        words_score(a, s) is None || words_score(b, s) is None ==> words_score(a + b, s) is None,
        words_score(seq![word], s) == word_score(word, s),
    decreases b.len(),
{
    assert(seq![word].drop_last() == Seq::<Seq<char>>::empty());
    assert(words_score(seq![word].drop_last(), s) == Some(0nat));
    if b.len() == 0 {
        assert(a + b == a);
    } else {
        law_scores_add_up(a, b.drop_last(), word, s);
        assert((a + b).drop_last() == a + b.drop_last());
        assert((a + b).last() == b.last());
    }
}

/// Queries and texts that are alike but for the case of their letters, and for the whitespace
/// around the query, fit alike.
pub proof fn law_case_does_not_matter(
    a: Seq<char>,
    b: Seq<char>,
    s: Seq<char>,
    t: Seq<char>,
)
    requires
        trimmed(a).len() > 0,
        trimmed(b).len() > 0,
        lowercase(trimmed(a)) == lowercase(trimmed(b)),
        lowercase(s) == lowercase(t),
    ensures
        fit(a, s) == fit(b, t),
{
}

proof fn lemma_holds_itself(s: Seq<char>, x: Seq<char>)
    ensures
        holds_text(s + x, x),
{
    let at = s.len() as int;
    assert((s + x).subrange(at, at + x.len()) == x);
    assert(crate::search::stands_at(s + x, x, at));
}

/// A setting is found by its title, its section and its description in both languages, and by its
/// keywords: its search text holds all of them. It is shown under its title and its section in
/// the language that is asked for.
pub proof fn law_setting_is_found_by_its_texts(
    catalog: &Catalog,
    language: Language,
    d: SearchDefinition,
)
    ensures
        definition_item(catalog, language, d).target == d.target@,
        definition_item(catalog, language, d).title == catalog.text(language, d.title@),
        definition_item(catalog, language, d).section == catalog.text(language, d.section@),
        holds_text(
            definition_item(catalog, language, d).search_text,
            catalog.text(Language::En, d.title@),
        ),
        holds_text(
            definition_item(catalog, language, d).search_text,
            catalog.text(Language::Zh, d.title@),
        ),
        holds_text(
            definition_item(catalog, language, d).search_text,
            catalog.text(Language::En, d.section@),
        ),
        holds_text(
            definition_item(catalog, language, d).search_text,
            catalog.text(Language::Zh, d.section@),
        ),
        holds_text(definition_item(catalog, language, d).search_text, d.keywords@),
        d.description matches Some(key) ==> holds_text(
            definition_item(catalog, language, d).search_text,
            catalog.text(Language::En, key@),
        ) && holds_text(
            definition_item(catalog, language, d).search_text,
            catalog.text(Language::Zh, key@),
        ),
{
    let t0 = catalog.text(Language::En, d.title@);
    let t1 = t0 + " "@;
    let t2 = t1 + catalog.text(Language::Zh, d.title@);
    let t3 = t2 + " "@;
    let t4 = t3 + catalog.text(Language::En, d.section@);
    let t5 = t4 + " "@;
    let t6 = t5 + catalog.text(Language::Zh, d.section@);
    let t7 = t6 + " "@;
    let t8 = t7 + d.keywords@;
    lemma_holds_itself(Seq::empty(), t0);
    assert(Seq::<char>::empty() + t0 == t0);
    lemma_holds_more(t0, " "@, catalog.text(Language::En, d.title@));
    lemma_holds_more(t1, catalog.text(Language::Zh, d.title@), catalog.text(Language::En, d.title@));
    lemma_holds_more(t2, " "@, catalog.text(Language::En, d.title@));
    lemma_holds_more(t3, catalog.text(Language::En, d.section@), catalog.text(Language::En, d.title@));
    lemma_holds_more(t4, " "@, catalog.text(Language::En, d.title@));
    lemma_holds_more(t5, catalog.text(Language::Zh, d.section@), catalog.text(Language::En, d.title@));
    lemma_holds_more(t6, " "@, catalog.text(Language::En, d.title@));
    lemma_holds_more(t7, d.keywords@, catalog.text(Language::En, d.title@));
    lemma_holds_itself(t1, catalog.text(Language::Zh, d.title@));
    lemma_holds_more(t2, " "@, catalog.text(Language::Zh, d.title@));
    lemma_holds_more(t3, catalog.text(Language::En, d.section@), catalog.text(Language::Zh, d.title@));
    lemma_holds_more(t4, " "@, catalog.text(Language::Zh, d.title@));
    lemma_holds_more(t5, catalog.text(Language::Zh, d.section@), catalog.text(Language::Zh, d.title@));
    lemma_holds_more(t6, " "@, catalog.text(Language::Zh, d.title@));
    lemma_holds_more(t7, d.keywords@, catalog.text(Language::Zh, d.title@));
    lemma_holds_itself(t3, catalog.text(Language::En, d.section@));
    lemma_holds_more(t4, " "@, catalog.text(Language::En, d.section@));
    lemma_holds_more(t5, catalog.text(Language::Zh, d.section@), catalog.text(Language::En, d.section@));
    lemma_holds_more(t6, " "@, catalog.text(Language::En, d.section@));
    lemma_holds_more(t7, d.keywords@, catalog.text(Language::En, d.section@));
    lemma_holds_itself(t5, catalog.text(Language::Zh, d.section@));
    lemma_holds_more(t6, " "@, catalog.text(Language::Zh, d.section@));
    lemma_holds_more(t7, d.keywords@, catalog.text(Language::Zh, d.section@));
    lemma_holds_itself(t7, d.keywords@);
    if let Some(key) = d.description {
        let en = catalog.text(Language::En, key@);
        let zh = catalog.text(Language::Zh, key@);
        let t9 = t8 + " "@;
        let t10 = t9 + en;
        let t11 = t10 + " "@;
        lemma_holds_itself(t9, en);
        lemma_holds_more(t10, " "@, en);
        lemma_holds_more(t11, zh, en);
        lemma_holds_itself(t11, zh);
        lemma_holds_more(t8, " "@, catalog.text(Language::En, d.title@));
        lemma_holds_more(t9, en, catalog.text(Language::En, d.title@));
        lemma_holds_more(t10, " "@, catalog.text(Language::En, d.title@));
        lemma_holds_more(t11, zh, catalog.text(Language::En, d.title@));
        lemma_holds_more(t8, " "@, catalog.text(Language::Zh, d.title@));
        lemma_holds_more(t9, en, catalog.text(Language::Zh, d.title@));
        lemma_holds_more(t10, " "@, catalog.text(Language::Zh, d.title@));
        lemma_holds_more(t11, zh, catalog.text(Language::Zh, d.title@));
        lemma_holds_more(t8, " "@, catalog.text(Language::En, d.section@));
        lemma_holds_more(t9, en, catalog.text(Language::En, d.section@));
        lemma_holds_more(t10, " "@, catalog.text(Language::En, d.section@));
        lemma_holds_more(t11, zh, catalog.text(Language::En, d.section@));
        lemma_holds_more(t8, " "@, catalog.text(Language::Zh, d.section@));
        lemma_holds_more(t9, en, catalog.text(Language::Zh, d.section@));
        lemma_holds_more(t10, " "@, catalog.text(Language::Zh, d.section@));
        lemma_holds_more(t11, zh, catalog.text(Language::Zh, d.section@));
        lemma_holds_more(t8, " "@, d.keywords@);
        lemma_holds_more(t9, en, d.keywords@);
        lemma_holds_more(t10, " "@, d.keywords@);
        lemma_holds_more(t11, zh, d.keywords@);
    }
}

/// A local model is shown under its name, and is found by its name, its repository and its id.
pub proof fn law_model_is_found_by_its_texts(
    catalog: &Catalog,
    language: Language,
    model: ModelConfig,
)
    ensures
        model_item(catalog, language, model).target == "settings-local-ai-model"@,
        model_item(catalog, language, model).title == model.name@,
        model_item(catalog, language, model).section == catalog.text(
            language,
            "ai_runtime.local.enable"@,
        ),
        holds_text(model_item(catalog, language, model).search_text, model.name@),
        holds_text(model_item(catalog, language, model).search_text, model.repo_id@),
        holds_text(model_item(catalog, language, model).search_text, model.id@),
        holds_text(
            model_item(catalog, language, model).search_text,
            " model qwen huggingface 模型"@,
        ),
{
    let none = Seq::<char>::empty();
    let words = " model qwen huggingface 模型"@;
    let t0 = model.name@;
    let t1 = t0 + " "@;
    let t2 = t1 + model.repo_id@;
    let t3 = t2 + " "@;
    let t4 = t3 + model.id@;
    assert(none + t0 == t0);
    lemma_holds_itself(none, t0);
    lemma_holds_more(t0, " "@, model.name@);
    lemma_holds_more(t1, model.repo_id@, model.name@);
    lemma_holds_more(t2, " "@, model.name@);
    lemma_holds_more(t3, model.id@, model.name@);
    lemma_holds_more(t4, words, model.name@);
    lemma_holds_itself(t1, model.repo_id@);
    lemma_holds_more(t2, " "@, model.repo_id@);
    lemma_holds_more(t3, model.id@, model.repo_id@);
    lemma_holds_more(t4, words, model.repo_id@);
    lemma_holds_itself(t3, model.id@);
    lemma_holds_more(t4, words, model.id@);
    lemma_holds_itself(t4, words);
}

/// All settings can be found, then all actions, then the built-in models and then the user's, each
/// in its order.
pub proof fn law_everything_can_be_found(
    catalog: &Catalog,
    language: Language,
    builtin_models: Seq<ModelConfig>,
    custom_models: Seq<ModelConfig>,
    i: int,
)
    ensures
        search_items(catalog, language, builtin_models, custom_models).len() == search_table().len()
            + 5 + builtin_models.len() + custom_models.len(),
        0 <= i < search_table().len() ==> search_items(
            catalog,
            language,
            builtin_models,
            custom_models,
        )[i] == definition_item(catalog, language, search_table()[i]),
        0 <= i < builtin_models.len() ==> search_items(
            catalog,
            language,
            builtin_models,
            custom_models,
        )[search_table().len() + 5 + i] == model_item(catalog, language, builtin_models[i]),
        0 <= i < custom_models.len() ==> search_items(
            catalog,
            language,
            builtin_models,
            custom_models,
        )[search_table().len() + 5 + builtin_models.len() + i] == model_item(
            catalog,
            language,
            custom_models[i],
        ),
{
    assert(all_actions().len() == 5);
}

/// Each action is named by its own message and shown by its own element of the dialog, and every
/// one of them is listed once.
pub proof fn law_actions(action: KeybindingAction)
    ensures
        all_actions().contains(action),
        all_actions().no_duplicates(),
        action_definition(action).target == action_target(action),
        action_definition(action).title == action_key(action),
        action_definition(action).section@ == "settings.keybindings"@,
        action == KeybindingAction::CloseFocusedPane ==> action_key(action)@
            == "settings.keybinding_close_focused_pane"@ && action_target(action)@
            == "settings-keybinding-close-focused-pane"@,
        action == KeybindingAction::AppendPane ==> action_key(action)@
            == "settings.keybinding_append_pane"@ && action_target(action)@
            == "settings-keybinding-append-pane"@,
        action == KeybindingAction::ToggleComparison ==> action_key(action)@
            == "settings.keybinding_toggle_comparison"@ && action_target(action)@
            == "settings-keybinding-toggle-comparison"@,
        action == KeybindingAction::TogglePaneZoom ==> action_key(action)@
            == "settings.keybinding_toggle_pane_zoom"@ && action_target(action)@
            == "settings-keybinding-toggle-pane-zoom"@,
        action == KeybindingAction::ToggleChat ==> action_key(action)@
            == "settings.keybinding_toggle_chat"@ && action_target(action)@
            == "settings-keybinding-toggle-chat"@,
{
    let all = all_actions();
    assert(all[0] == action || all[1] == action || all[2] == action || all[3] == action || all[4]
        == action);
}

/// The best finds come first: of two finds the first one fits at least as well as the second, and
/// where both fit as well, its title does not come behind the other's.
pub proof fn law_best_finds_first(query: Seq<char>, items: Seq<SearchItemText>, i: int, j: int)
    requires
        0 <= i < j < search_finds(query, items).len(),
    ensures
        fit(query, search_finds(query, items)[i].search_text) is Some,
        fit(query, search_finds(query, items)[j].search_text) is Some,
        fit(query, search_finds(query, items)[i].search_text)->0 >= fit(
            query,
            search_finds(query, items)[j].search_text,
        )->0,
        fit(query, search_finds(query, items)[i].search_text)->0 == fit(
            query,
            search_finds(query, items)[j].search_text,
        )->0 ==> !text_less(
            search_finds(query, items)[j].title,
            search_finds(query, items)[i].title,
        ),
{
    broadcast use vstd::seq_lib::group_to_multiset_ensures;

    law_find_order();
    let list = scored(query, items);
    let ordered = sorted_by(list, find_order());
    crate::sort::law_sorted(list, find_order());
    lemma_scores_are_fits(query, items);
    assert(ordered.to_multiset().contains(ordered[i]));
    assert(ordered.to_multiset().contains(ordered[j]));
    assert(list.contains(ordered[i]));
    assert(list.contains(ordered[j]));
    let a = choose|a: int| 0 <= a < list.len() && list[a] == ordered[i];
    let b = choose|b: int| 0 <= b < list.len() && list[b] == ordered[j];
    assert(fit(query, list[a].item.search_text) == Some(list[a].score));
    assert(fit(query, list[b].item.search_text) == Some(list[b].score));
    assert(!find_order()(ordered[j], ordered[i]));
}

proof fn lemma_scores_are_fits(query: Seq<char>, items: Seq<SearchItemText>)
    ensures
        forall|k: int|
            0 <= k < scored(query, items).len() ==> fit(
                query,
                (#[trigger] scored(query, items)[k]).item.search_text,
            ) == Some(scored(query, items)[k].score),
    decreases items.len(),
{
    if items.len() > 0 {
        let before = scored(query, items.drop_last());
        let all = scored(query, items);
        lemma_scores_are_fits(query, items.drop_last());
        assert forall|k: int| 0 <= k < all.len() implies fit(
            query,
            (#[trigger] all[k]).item.search_text,
        ) == Some(all[k].score) by {
            if k < before.len() {
                assert(all[k] == before[k]);
            }
        }
    }
}

/// A score is held as it is as long as it fits into a machine integer, and as the largest one
/// otherwise; a text that does not fit has none.
pub proof fn law_capped(score: nat)
    ensures
        score <= usize::MAX ==> capped(Some(score)) == Some(score),
        score > usize::MAX ==> capped(Some(score)) == Some(usize::MAX as nat),
        capped(None) is None,
{
}

} // verus!
