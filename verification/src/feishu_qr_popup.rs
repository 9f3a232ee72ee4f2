//! The popup that follows a sign-in to Feishu.

use vstd::prelude::*;

use crate::i18n::{Catalog, Language};

verus! {

/// How far a sign-in is.
#[derive(Clone, Debug, PartialEq)]
pub enum FeishuQrPopupStatus {
    Scanning,
    Delivered,
    Failed { reason: String },
}

/// The banner of a sign-in: its background, its colour, and its text.
#[derive(Clone, Debug, PartialEq)]
pub struct FeishuBanner {
    pub background: &'static str,
    pub color: &'static str,
    pub text: String,
}

/// The background, the colour and the text of the banner. Scanning ends when the code expires.
pub open spec fn banner(
    status: FeishuQrPopupStatus,
    expired: bool,
    language: Language,
    catalog: Catalog,
) -> (Seq<char>, Seq<char>, Seq<char>) {
    match status {
        FeishuQrPopupStatus::Scanning => if expired {
            ("background:#3b2430;"@, "#f7768e"@, catalog.text(language, "feishu.qr_expired"@))
        } else {
            ("background:#1a224a;"@, "#7aa2f7"@, catalog.text(language, "feishu.qr_fetching"@))
        },
        FeishuQrPopupStatus::Delivered => (
            "background:#163a2d;"@,
            "#9ece6a"@,
            catalog.text(language, "feishu.qr_delivered"@),
        ),
        FeishuQrPopupStatus::Failed { reason } => (
            "background:#3b2430;"@,
            "#f7768e"@,
            catalog.text_with(language, "feishu.qr_failed"@, "reason"@, reason@),
        ),
    }
}

/// The banner of a sign-in.
pub fn status_banner(
    status: &FeishuQrPopupStatus,
    expired: bool,
    language: Language,
    catalog: &Catalog,
) -> (r: FeishuBanner)
    ensures
        (r.background@, r.color@, r.text@) == banner(*status, expired, language, *catalog),
{
    match status {
        FeishuQrPopupStatus::Scanning => {
            if expired {
                FeishuBanner {
                    background: "background:#3b2430;",
                    color: "#f7768e",
                    text: catalog.t_for(language, "feishu.qr_expired"),
                }
            } else {
                FeishuBanner {
                    background: "background:#1a224a;",
                    color: "#7aa2f7",
                    text: catalog.t_for(language, "feishu.qr_fetching"),
                }
            }
        },
        FeishuQrPopupStatus::Delivered => FeishuBanner {
            background: "background:#163a2d;",
            color: "#9ece6a",
            text: catalog.t_for(language, "feishu.qr_delivered"),
        },
        FeishuQrPopupStatus::Failed { reason } => FeishuBanner {
            background: "background:#3b2430;",
            color: "#f7768e",
            text: catalog.tf_for(language, "feishu.qr_failed", "reason", reason.as_str()),
        },
    }
}

/// The key of the line below the title: a sign-in belongs to a session or to the settings.
pub fn subtitle_key(has_session: bool) -> (r: &'static str)
    ensures
        r@ == (if has_session {
            "feishu.qr_subtitle_session"@
        } else {
            "feishu.qr_subtitle_settings"@
        }),
{
    if has_session {
        "feishu.qr_subtitle_session"
    } else {
        "feishu.qr_subtitle_settings"
    }
}

/// A code that was delivered is told in green, one that is awaited in blue, and one that failed or
/// whose time is over in red, each with its own message.
pub proof fn law_banners(
    status: FeishuQrPopupStatus,
    expired: bool,
    language: Language,
    catalog: Catalog,
)
    ensures
        status is Delivered ==> banner(status, expired, language, catalog) == (
            "background:#163a2d;"@,
            "#9ece6a"@,
            catalog.text(language, "feishu.qr_delivered"@),
        ),
        status is Scanning && !expired ==> banner(status, expired, language, catalog) == (
            "background:#1a224a;"@,
            "#7aa2f7"@,
            catalog.text(language, "feishu.qr_fetching"@),
        ),
        status is Scanning && expired ==> banner(status, expired, language, catalog) == (
            "background:#3b2430;"@,
            "#f7768e"@,
            catalog.text(language, "feishu.qr_expired"@),
        ),
        status matches FeishuQrPopupStatus::Failed { reason } ==> banner(
            status,
            expired,
            language,
            catalog,
        ) == (
            "background:#3b2430;"@,
            "#f7768e"@,
            catalog.text_with(language, "feishu.qr_failed"@, "reason"@, reason@),
        ),
{
}

} // verus!
