//! What the contacts tab and its popups show.
use crate::identity::profile::StoredContact;
use crate::messenger::incoming::{message_text, text_of_message, OpenedHandshake, OpenedView};
use crate::text;
use crate::text::decimal;
use crate::ui::input::{display_text, sanitize_for_display};
use vstd::prelude::*;

verus! {

/// A contact in the list.
pub struct ContactRow {
    pub name: String,
    pub verified: bool,
    /// The number of unread messages in brackets, or nothing.
    pub badge: String,
}

/// The number of unread messages in brackets, or nothing.
pub open spec fn badge_of(unread: u32) -> Seq<char> {
    if unread > 0 {
        " ("@ + decimal(unread as nat) + ")"@
    } else {
        seq![]
    }
}

/// The row of a contact.
pub fn contact_row(contact: &StoredContact, unread: u32) -> (r: ContactRow)
    ensures
        r.name@ == display_text(contact@.display_name),
        r.verified == contact@.verified,
        r.badge@ == badge_of(unread),
{
    let badge = if unread > 0 {
        text::joined3(" (", text::decimal_text(unread as u64).as_str(), ")")
    } else {
        String::new()
    };
    ContactRow {
        name: sanitize_for_display(contact.display_name.as_str()),
        verified: contact.verified,
        badge,
    }
}

impl ContactRow {
    /// The mark behind the name.
    pub fn mark(&self) -> (r: &'static str)
        ensures
            r@ == (if self.verified {
                " ✓"@
            } else {
                " ⚠ UNVERIFIED"@
            }),
    {
        if self.verified {
            " ✓"
        } else {
            " ⚠ UNVERIFIED"
        }
    }
}

/// The banner over a fingerprint.
pub fn fingerprint_banner(verified: bool) -> (r: &'static str)
    ensures
        r@ == (if verified {
            "✓  Fingerprint verified"@
        } else {
            "⚠  FINGERPRINT NOT VERIFIED — MITM POSSIBLE. Compare fingerprint out-of-band before trusting."@
        }),
{
    if verified {
        "✓  Fingerprint verified"
    } else {
        "⚠  FINGERPRINT NOT VERIFIED — MITM POSSIBLE. Compare fingerprint out-of-band before trusting."
    }
}

/// The text of the fingerprint panel.
pub fn fingerprint_text(contact: &StoredContact) -> (r: String)
    ensures
        r@ == "Fingerprint:\n"@ + contact@.bundle.fingerprint()
            + "\n\nVerify this matches your contact's display BEFORE communicating."@,
{
    text::joined3(
        "Fingerprint:\n",
        contact.bundle.fingerprint().as_str(),
        "\n\nVerify this matches your contact's display BEFORE communicating.",
    )
}

/// The text of a key alert.
pub open spec fn alert_text(name: Seq<char>, fingerprint: Seq<char>) -> Seq<char> {
    "\n\n  ⛔  KEY CHANGE DETECTED\n\nContact: "@ + display_text(name)
        + "\n\nTheir key has changed. This could indicate a security compromise or device change.\n\nNew fingerprint:\n"@
        + display_text(fingerprint)
        + "\n\nVerify this out-of-band before continuing. Press [V] to mark verified, [R] to reject."@
}

/// The text of a key alert.
pub fn key_change_alert(name: &str, fingerprint: &str) -> (r: String)
    ensures
        r@ == alert_text(name@, fingerprint@),
{
    let front = text::joined3(
        "\n\n  ⛔  KEY CHANGE DETECTED\n\nContact: ",
        sanitize_for_display(name).as_str(),
        "\n\nTheir key has changed. This could indicate a security compromise or device change.\n\nNew fingerprint:\n",
    );
    text::joined3(
        front.as_str(),
        sanitize_for_display(fingerprint).as_str(),
        "\n\nVerify this out-of-band before continuing. Press [V] to mark verified, [R] to reject.",
    )
}

/// The text of the review of a contact request.
pub open spec fn request_text(p: OpenedView, name_buf: Seq<char>) -> Seq<char> {
    "An unknown contact wants to message you.\n\nTheir fingerprint:\n"@ + p.bundle.fingerprint()
        + "\n\nTheir first message:\n\""@ + message_text(p.plaintext)
        + "\"\n\nVerify this fingerprint out-of-band before accepting.\n\nEnter a name for this contact:\n"@
        + name_buf
}

/// The text of the review of a contact request.
pub fn pending_request(p: &OpenedHandshake, name_buf: &str) -> (r: String)
    ensures
        r@ == request_text(p@, name_buf@),
{
    let front = text::joined3(
        "An unknown contact wants to message you.\n\nTheir fingerprint:\n",
        p.bundle.fingerprint().as_str(),
        "\n\nTheir first message:\n\"",
    );
    let front = text::joined(front.as_str(), text_of_message(&p.plaintext).as_str());
    text::joined3(
        front.as_str(),
        "\"\n\nVerify this fingerprint out-of-band before accepting.\n\nEnter a name for this contact:\n",
        name_buf,
    )
}

/// What an empty contact list shows.
pub open spec fn empty_text(pending: nat) -> Seq<char> {
    if pending > 0 {
        "No contacts yet.\n\n[a]  Add a contact using their contact code\n[e]  Show your contact code to share with others\n[p]  Review "@
            + decimal(pending) + " pending contact request(s)"@
    } else {
        "No contacts yet.\n\n[a]  Add a contact using their contact code\n[e]  Show your contact code to share with others"@
    }
}

/// What an empty contact list shows.
pub fn empty_list(pending: usize) -> (r: String)
    ensures
        r@ == empty_text(pending as nat),
{
    if pending > 0 {
        text::joined3(
            "No contacts yet.\n\n[a]  Add a contact using their contact code\n[e]  Show your contact code to share with others\n[p]  Review ",
            text::decimal_text(pending as u64).as_str(),
            " pending contact request(s)",
        )
    } else {
        "No contacts yet.\n\n[a]  Add a contact using their contact code\n[e]  Show your contact code to share with others".to_owned()
    }
}

/// A tab's label with a count behind it, where there is something to count.
pub open spec fn counted(label: Seq<char>, n: nat) -> Seq<char> {
    if n > 0 {
        label + " ("@ + decimal(n) + ")"@
    } else {
        label
    }
}

/// A tab's label with a count behind it.
pub fn tab_label(label: &str, n: u64) -> (r: String)
    ensures
        r@ == counted(label@, n as nat),
{
    if n > 0 {
        let front = text::joined(label, " (");
        text::joined3(front.as_str(), text::decimal_text(n).as_str(), ")")
    } else {
        label.to_owned()
    }
}

/// The codes as text, for a terminal too small for the QR code.
pub open spec fn codes_text(bootstrap: Seq<char>, export: Seq<char>) -> Seq<char> {
    "Share this code out-of-band (in person, Signal, etc.).\nNever share through an unverified channel.\n\nBootstrap code (short, fits in a QR code):\n"@
        + bootstrap + "\n\nFull contact code (manual sharing):\n"@ + export
}

/// The codes as text, for a terminal too small for the QR code.
pub fn export_codes(bootstrap: &str, export: &str) -> (r: String)
    ensures
        r@ == codes_text(bootstrap@, export@),
{
    let front = text::joined(
        "Share this code out-of-band (in person, Signal, etc.).\nNever share through an unverified channel.\n\nBootstrap code (short, fits in a QR code):\n",
        bootstrap,
    );
    text::joined3(front.as_str(), "\n\nFull contact code (manual sharing):\n", export)
}

} // verus!
