//! What the settings tab shows.
use crate::storage::records::{AppSettings, SettingsView};
use crate::text;
use crate::text::decimal;
use crate::ui::state::{SettingsEditMode, NUM_SETTINGS};
use vstd::prelude::*;

verus! {

/// The entries of the settings list.
#[derive(Debug, Clone, Copy, PartialEq, Eq, Structural)]
pub enum SettingsItem {
    TorAddress,
    NymGateway,
    AutoDelete,
    RotateKey,
    RevokeKey,
    ExportContactCode,
    RefreshCircuit,
}

/// The entry at a place of the list.
pub open spec fn item_at(i: int) -> Option<SettingsItem> {
    if i == 0 {
        Some(SettingsItem::TorAddress)
    } else if i == 1 {
        Some(SettingsItem::NymGateway)
    } else if i == 2 {
        Some(SettingsItem::AutoDelete)
    } else if i == 3 {
        Some(SettingsItem::RotateKey)
    } else if i == 4 {
        Some(SettingsItem::RevokeKey)
    } else if i == 5 {
        Some(SettingsItem::ExportContactCode)
    } else if i == 6 {
        Some(SettingsItem::RefreshCircuit)
    } else {
        None
    }
}

/// How the threshold for automatic deletion is shown.
pub open spec fn threshold_text(n: Option<u32>) -> Seq<char> {
    match n {
        Some(n) => decimal(n as nat) + " messages"@,
        None => "disabled"@,
    }
}

/// How the threshold for automatic deletion is shown.
pub fn show_threshold(n: Option<u32>) -> (r: String)
    ensures
        r@ == threshold_text(n),
{
    match n {
        Some(n) => text::joined(text::decimal_text(n as u64).as_str(), " messages"),
        None => "disabled".to_owned(),
    }
}

/// The line of an entry.
pub open spec fn item_text(s: SettingsView, item: SettingsItem) -> Seq<char> {
    match item {
        SettingsItem::TorAddress => "Tor SOCKS5 address: "@ + s.tor_socks_addr,
        SettingsItem::NymGateway => "Nym gateway: "@ + match s.nym_gateway {
            Some(g) => g,
            None => "(auto)"@,
        },
        SettingsItem::AutoDelete => "Auto-delete after: "@ + threshold_text(s.default_auto_delete),
        SettingsItem::RotateKey => "Rotate identity keys"@,
        SettingsItem::RevokeKey => "Revoke & announce key change"@,
        SettingsItem::ExportContactCode => "Export my contact code"@,
        SettingsItem::RefreshCircuit => "Refresh Tor circuit (SIGNAL NEWNYM)"@,
    }
}

/// The line of an entry.
pub fn show_item(settings: &AppSettings, item: SettingsItem) -> (r: String)
    ensures
        r@ == item_text(settings@, item),
{
    match item {
        SettingsItem::TorAddress => text::joined(
            "Tor SOCKS5 address: ",
            settings.tor_socks_addr.as_str(),
        ),
        SettingsItem::NymGateway => match &settings.nym_gateway {
            Some(g) => text::joined("Nym gateway: ", g.as_str()),
            None => text::joined("Nym gateway: ", "(auto)"),
        },
        SettingsItem::AutoDelete => text::joined(
            "Auto-delete after: ",
            show_threshold(settings.default_auto_delete).as_str(),
        ),
        SettingsItem::RotateKey => "Rotate identity keys".to_owned(),
        SettingsItem::RevokeKey => "Revoke & announce key change".to_owned(),
        SettingsItem::ExportContactCode => "Export my contact code".to_owned(),
        SettingsItem::RefreshCircuit => "Refresh Tor circuit (SIGNAL NEWNYM)".to_owned(),
    }
}

/// The lines of the settings list.
pub fn settings_lines(settings: &AppSettings) -> (r: Vec<String>)
    ensures
        r@.len() == NUM_SETTINGS,
        forall|i: int|
            0 <= i < NUM_SETTINGS ==> (#[trigger] r@[i])@ == item_text(settings@, item_at(i)->0),
{
    let mut lines: Vec<String> = Vec::new();
    lines.push(show_item(settings, SettingsItem::TorAddress));
    lines.push(show_item(settings, SettingsItem::NymGateway));
    lines.push(show_item(settings, SettingsItem::AutoDelete));
    lines.push(show_item(settings, SettingsItem::RotateKey));
    lines.push(show_item(settings, SettingsItem::RevokeKey));
    lines.push(show_item(settings, SettingsItem::ExportContactCode));
    lines.push(show_item(settings, SettingsItem::RefreshCircuit));
    lines
}

/// A popup over the settings list.
pub struct SettingsPopup {
    pub title: &'static str,
    /// What is asked.
    pub question: &'static str,
    /// Whether there is a line of text to edit.
    pub editable: bool,
    /// Which keys answer.
    pub keys: &'static str,
}

/// The title of the popup in a mode, its question and the keys that answer it.
pub open spec fn popup_texts(mode: SettingsEditMode) -> Option<(Seq<char>, Seq<char>, Seq<char>)> {
    match mode {
        SettingsEditMode::Closed => None,
        SettingsEditMode::EditTorAddr => Some(
            (
                "Edit Tor SOCKS5 Address"@,
                "Enter new Tor SOCKS5 address (e.g. 127.0.0.1:9050):"@,
                "Enter:save  Esc:cancel"@,
            ),
        ),
        SettingsEditMode::EditAutoDelete => Some(
            (
                "Edit Auto-Delete Threshold"@,
                "Enter message count for auto-delete (blank = disable):"@,
                "Enter:save  Esc:cancel"@,
            ),
        ),
        SettingsEditMode::ConfirmRotate => Some(
            (
                "Confirm Key Rotation"@,
                "Rotate your identity keys?\n\nThis generates a new keypair, sends a revocation certificate\nto all contacts, and invalidates your current contact code."@,
                "y:confirm  Esc/n:cancel"@,
            ),
        ),
        SettingsEditMode::ConfirmRevoke => Some(
            (
                "Confirm Key Revocation"@,
                "Revoke your current identity key?\n\nThis sends a retirement revocation certificate to all contacts.\nUse Rotate instead to replace the key with a new one."@,
                "y:confirm  Esc/n:cancel"@,
            ),
        ),
    }
}

/// The popup in a mode.
pub fn settings_popup(mode: SettingsEditMode) -> (r: Option<SettingsPopup>)
    ensures
        match r {
            Some(p) => {
                &&& popup_texts(mode) == Some((p.title@, p.question@, p.keys@))
                &&& p.editable == (mode is EditTorAddr || mode is EditAutoDelete)
            },
            None => popup_texts(mode) is None,
        },
{
    match mode {
        SettingsEditMode::Closed => None,
        SettingsEditMode::EditTorAddr => Some(
            SettingsPopup {
                title: "Edit Tor SOCKS5 Address",
                question: "Enter new Tor SOCKS5 address (e.g. 127.0.0.1:9050):",
                editable: true,
                keys: "Enter:save  Esc:cancel",
            },
        ),
        SettingsEditMode::EditAutoDelete => Some(
            SettingsPopup {
                title: "Edit Auto-Delete Threshold",
                question: "Enter message count for auto-delete (blank = disable):",
                editable: true,
                keys: "Enter:save  Esc:cancel",
            },
        ),
        SettingsEditMode::ConfirmRotate => Some(
            SettingsPopup {
                title: "Confirm Key Rotation",
                question: "Rotate your identity keys?\n\nThis generates a new keypair, sends a revocation certificate\nto all contacts, and invalidates your current contact code.",
                editable: false,
                keys: "y:confirm  Esc/n:cancel",
            },
        ),
        SettingsEditMode::ConfirmRevoke => Some(
            SettingsPopup {
                title: "Confirm Key Revocation",
                question: "Revoke your current identity key?\n\nThis sends a retirement revocation certificate to all contacts.\nUse Rotate instead to replace the key with a new one.",
                editable: false,
                keys: "y:confirm  Esc/n:cancel",
            },
        ),
    }
}

} // verus!
