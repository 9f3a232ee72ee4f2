//! The badge that shows how the last command of a session ended.

use vstd::prelude::*;

use crate::i18n::{Catalog, Language};
use crate::number::{signed_decimal, signed_decimal_text};

verus! {

/// How the last command of a session ended.
#[derive(Clone, Debug, PartialEq)]
pub enum CommandStatus {
    /// There is nothing to tell.
    Idle,
    Success,
    Failed(i32),
    Disconnected(String),
}

/// A badge.
#[derive(Clone, Debug, PartialEq)]
pub struct CommandStatusPresentation {
    pub label: String,
    pub background: &'static str,
    pub title: String,
}

/// What a badge shows.
#[verifier::ext_equal]
pub struct BadgeText {
    pub label: Seq<char>,
    pub background: Seq<char>,
    pub title: Seq<char>,
}

impl View for CommandStatusPresentation {
    type V = BadgeText;

    open spec fn view(&self) -> BadgeText {
        BadgeText { label: self.label@, background: self.background@, title: self.title@ }
    }
}

/// The colour of what went well.
pub const GREEN: &'static str = "rgba(76, 175, 80, 0.92)";

/// The colour of what failed.
pub const RED: &'static str = "rgba(244, 67, 54, 0.92)";

/// The badge of a status. Where there is nothing to tell a connected session has one too.
pub open spec fn badge(
    status: CommandStatus,
    connected: bool,
    language: Language,
    catalog: Catalog,
) -> Option<BadgeText> {
    match status {
        CommandStatus::Idle => if connected {
            Some(
                BadgeText {
                    label: catalog.text(language, "cmd_status.connected"@),
                    background: GREEN@,
                    title: catalog.text(language, "cmd_status.connected_tip"@),
                },
            )
        } else {
            None
        },
        CommandStatus::Success => Some(
            BadgeText {
                label: catalog.text(language, "cmd_status.success"@),
                background: GREEN@,
                title: catalog.text(language, "cmd_status.success_tip"@),
            },
        ),
        CommandStatus::Failed(exit_code) => Some(
            BadgeText {
                label: catalog.text_with(
                    language,
                    "cmd_status.failed"@,
                    "exit_code"@,
                    signed_decimal(exit_code as int),
                ),
                background: RED@,
                title: catalog.text_with(
                    language,
                    "cmd_status.failed_tip"@,
                    "exit_code"@,
                    signed_decimal(exit_code as int),
                ),
            },
        ),
        CommandStatus::Disconnected(reason) => Some(
            BadgeText {
                label: catalog.text(language, "cmd_status.disconnected"@),
                background: RED@,
                title: catalog.text_with(
                    language,
                    "cmd_status.disconnected_tip"@,
                    "reason"@,
                    reason@,
                ),
            },
        ),
    }
}

/// The badge of a status.
pub fn command_status_presentation(
    status: &CommandStatus,
    connected: bool,
    language: Language,
    catalog: &Catalog,
) -> (r: Option<CommandStatusPresentation>)
    ensures
        match r {
            Some(shown) => badge(*status, connected, language, *catalog) == Some(shown@),
            None => badge(*status, connected, language, *catalog) is None,
        },
{
    match status {
        CommandStatus::Idle => {
            if !connected {
                return None;
            }
            Some(
                CommandStatusPresentation {
                    label: catalog.t_for(language, "cmd_status.connected"),
                    background: GREEN,
                    title: catalog.t_for(language, "cmd_status.connected_tip"),
                },
            )
        },
        CommandStatus::Success => Some(
            CommandStatusPresentation {
                label: catalog.t_for(language, "cmd_status.success"),
                background: GREEN,
                title: catalog.t_for(language, "cmd_status.success_tip"),
            },
        ),
        CommandStatus::Failed(exit_code) => {
            let code = signed_decimal_text(*exit_code as i64);
            Some(
                CommandStatusPresentation {
                    label: catalog.tf_for(
                        language,
                        "cmd_status.failed",
                        "exit_code",
                        code.as_str(),
                    ),
                    background: RED,
                    title: catalog.tf_for(
                        language,
                        "cmd_status.failed_tip",
                        "exit_code",
                        code.as_str(),
                    ),
                },
            )
        },
        CommandStatus::Disconnected(reason) => Some(
            CommandStatusPresentation {
                label: catalog.t_for(language, "cmd_status.disconnected"),
                background: RED,
                title: catalog.tf_for(
                    language,
                    "cmd_status.disconnected_tip",
                    "reason",
                    reason.as_str(),
                ),
            },
        ),
    }
}

/// Whether the session is connected matters only where there is nothing to tell.
pub proof fn law_status_wins(status: CommandStatus, language: Language, catalog: Catalog)
    requires
        !(status is Idle),
    ensures
        badge(status, true, language, catalog) == badge(status, false, language, catalog),
        badge(status, true, language, catalog) is Some,
{
}

/// What went well is green and what failed is red; a session without anything to tell has a badge
/// only while it is connected, and every other status has one.
pub proof fn law_badges(
    status: CommandStatus,
    connected: bool,
    language: Language,
    catalog: Catalog,
)
    ensures
        badge(status, connected, language, catalog) is None <==> status is Idle && !connected,
        badge(status, connected, language, catalog) matches Some(shown) ==> {
            &&& status is Idle || status is Success ==> shown.background
                == "rgba(76, 175, 80, 0.92)"@
            &&& status is Failed || status is Disconnected ==> shown.background
                == "rgba(244, 67, 54, 0.92)"@
            &&& status is Idle ==> shown.label == catalog.text(language, "cmd_status.connected"@)
                && shown.title == catalog.text(language, "cmd_status.connected_tip"@)
            &&& status is Success ==> shown.label == catalog.text(language, "cmd_status.success"@)
                && shown.title == catalog.text(language, "cmd_status.success_tip"@)
            &&& status matches CommandStatus::Failed(code) ==> shown.label == catalog.text_with(
                language,
                "cmd_status.failed"@,
                "exit_code"@,
                signed_decimal(code as int),
            ) && shown.title == catalog.text_with(
                language,
                "cmd_status.failed_tip"@,
                "exit_code"@,
                signed_decimal(code as int),
            )
            &&& status matches CommandStatus::Disconnected(reason) ==> shown.label == catalog.text(
                language,
                "cmd_status.disconnected"@,
            ) && shown.title == catalog.text_with(
                language,
                "cmd_status.disconnected_tip"@,
                "reason"@,
                reason@,
            )
        },
{
}

} // verus!
