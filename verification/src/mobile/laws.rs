//! What the taps of the phone are for: laws on what a tap, or a message that
//! came in, does to the contact list, the queue of requests and the outside.
use crate::codec::{put_list_spec, Record};
use crate::crypto::keys::BundleView;
use crate::crypto::ratchet::{bob_start, HeaderView};
use crate::crypto::suite::{sealable, sha256};
use crate::error::IdentityError;
use crate::identity::profile::{contact_read, ContactView, BOOTSTRAP_PREFIX};
use crate::identity::revocation::{RevocationCertificate, RevocationReason, RevocationView};
use crate::messenger::contacts::contact_label;
use crate::messenger::identity::{bootstrap_text, export_text};
use crate::messenger::incoming::{handshake_opened, tag_accepted, trial, OpenedView};
use crate::messenger::outgoing::{composed, send_error};
use crate::messenger::sessions::{logged, only_talk_changed, other_conversations_are_kept};
use crate::mobile::incoming::{
    author_from, authentic, mobile_ciphertext, mobile_incoming, signer_from,
};
use crate::mobile::state::{
    coded, plain_message, reload_outcome, reloaded, MobileEdit, MobileMode, MobileView, Screen,
};
use crate::mobile::taps::{row_label, tap_effects, tapped, Tap};
use crate::network::message::{WireMessageType, WireView};
use crate::storage::records::{StoredMessage, StoredMessageView};
use crate::storage::vault::VaultView;
use crate::text;
use crate::text::{decimal, has_part, is_control, trim_spec, trim_start_spec};
use crate::ui::input::plain_text_is_kept;
use crate::ui::laws::{is_quiet, parts_are_held};
use crate::ui::settings_keys::threshold_in;
use crate::ui::state::{Effects, Tab, MAX_PENDING_HANDSHAKES};
use vstd::prelude::*;
use vstd::utf8::encode_utf8;

verus! {

/// Whether a text holds no control character but line feeds.
pub open spec fn is_plain(t: Seq<char>) -> bool {
    forall|i: int| 0 <= i < t.len() ==> (!is_control(#[trigger] t[i]) || t[i] == '\n')
}

/// What a contact writes is what the phone shows: a text without control
/// characters other than line feeds is shown and logged to the letter.
pub proof fn phone_keeps_messages_to_the_letter(t: Seq<char>)
    requires
        is_plain(t),
    ensures
        plain_message(encode_utf8(t)) == t,
{
    text::encoded_text_is_read(t);
    plain_text_is_kept(t);
}

/// Accepting a contact request takes that one from the queue and no other, adds
/// its contact under the name that was typed at the end of the list, starts the
/// session under its key and keeps every other contact.
pub proof fn accepting_on_the_phone_takes_one_request(
    a: MobileView,
    v: VaultView,
    b: MobileView,
    after: VaultView,
    e: Effects,
)
    requires
        a.pending.len() > 0,
        trim_spec(a.pending_name_buf).len() > 0,
        v.payload.sequence < u64::MAX,
        tapped(a, v, Tap::Accept, b, after),
        tap_effects(a, v, Tap::Accept, after, e),
    ensures
        b.pending.len() == a.pending.len() - 1,
        forall|j: int| 1 <= j < a.pending.len() ==> b.pending[j - 1] == #[trigger] a.pending[j],
        after.payload.contacts.len() == v.payload.contacts.len() + 1,
        forall|i: int|
            0 <= i < v.payload.contacts.len() ==> #[trigger] after.payload.contacts[i]
                == v.payload.contacts[i],
        after.payload.contacts.last().bundle == a.pending[0].bundle,
        after.payload.contacts.last().display_name == trim_spec(a.pending_name_buf),
        !after.payload.contacts.last().verified,
        after.payload.opk_secrets == v.payload.opk_secrets,
        after.payload.settings == v.payload.settings,
        e.sent@.len() == 0,
        v.payload.ratchet_secret() is Some ==> after.session(after.payload.contacts.last().id)
            == Some(bob_start(a.pending[0].session_key, v.payload.ratchet_secret()->0)),
        v.payload.ratchet_secret() is Some ==> b.contact_mode == MobileMode::List
            && b.selected_contact == v.payload.contacts.len() as usize,
{
    if v.payload.ratchet_secret() is Some {
        let base = v.with_pushed(a.pending[0].bundle, trim_spec(a.pending_name_buf));
        let id = sha256(a.pending[0].bundle.bytes());
        let talk = after.at(v.payload.sequence);
        assert(only_talk_changed(base, talk, id));
        other_conversations_are_kept(base, talk, id, id.push(0));
    }
}

/// The first message of a request that was accepted on the phone is logged to
/// the letter, and no other conversation is touched.
pub proof fn accepting_on_the_phone_logs_the_first_message(
    a: MobileView,
    v: VaultView,
    b: MobileView,
    after: VaultView,
    t: Seq<char>,
    other: Seq<u8>,
)
    requires
        a.pending.len() > 0,
        trim_spec(a.pending_name_buf).len() > 0,
        v.payload.sequence < u64::MAX,
        v.payload.ratchet_secret() is Some,
        tapped(a, v, Tap::Accept, b, after),
        a.pending[0].plaintext == encode_utf8(t),
        is_plain(t),
        other != sha256(a.pending[0].bundle.bytes()),
    ensures
        ({
            let first = StoredMessageView { counter: 1, content: t, from_us: false };
            sealable(put_list_spec::<StoredMessage>(seq![first]).len()) ==> after.messages(
                sha256(a.pending[0].bundle.bytes()),
            ) == seq![first]
        }),
        after.messages(other) == v.messages(other),
        after.session(other) == v.session(other),
        after.unread(other) == v.unread(other),
{
    phone_keeps_messages_to_the_letter(t);
    let base = v.with_pushed(a.pending[0].bundle, trim_spec(a.pending_name_buf));
    let id = sha256(a.pending[0].bundle.bytes());
    let talk = after.at(v.payload.sequence);
    other_conversations_are_kept(base, talk, id, other);
}

/// Rejecting a contact request drops that one and no other, and leaves the
/// vault alone.
pub proof fn rejecting_on_the_phone_drops_one_request(
    a: MobileView,
    v: VaultView,
    b: MobileView,
    after: VaultView,
    e: Effects,
)
    requires
        a.pending.len() > 0,
        tapped(a, v, Tap::Reject, b, after),
        tap_effects(a, v, Tap::Reject, after, e),
    ensures
        b.pending.len() == a.pending.len() - 1,
        forall|j: int| 1 <= j < a.pending.len() ==> b.pending[j - 1] == #[trigger] a.pending[j],
        b.contact_mode == MobileMode::List,
        after == v,
        is_quiet(e),
{
}

/// No other tap touches the queue of requests.
pub proof fn other_taps_leave_the_queue_alone(
    a: MobileView,
    v: VaultView,
    tap: Tap,
    b: MobileView,
    after: VaultView,
)
    requires
        tap != Tap::Accept,
        tap != Tap::Reject,
        tapped(a, v, tap, b, after),
    ensures
        b.pending == a.pending,
{
}

/// The tab bar and the buttons lead where they say.
pub proof fn taps_lead_where_they_say(
    a: MobileView,
    v: VaultView,
    tap: Tap,
    b: MobileView,
    after: VaultView,
)
    requires
        tapped(a, v, tap, b, after),
    ensures
        match tap {
            Tap::Contacts => b.tab == Tab::Contacts,
            Tap::Messages => b.tab == Tab::Conversation,
            Tap::Settings => b.tab == Tab::Settings,
            Tap::AddContact => b.contact_mode == MobileMode::AddContact
                && b.add_contact_buf.len() == 0,
            Tap::ExportCode => b.contact_mode == MobileMode::ExportCode,
            Tap::ReviewPending => a.pending.len() > 0 ==> b.contact_mode
                == MobileMode::PendingRequest,
            Tap::Select(k) => b.selected_contact == (if k < v.payload.contacts.len() {
                k
            } else {
                a.selected_contact
            }),
            Tap::CancelCode | Tap::CloseCode | Tap::LeaveReview => b.contact_mode
                == MobileMode::List,
            Tap::Search => b.search_active && b.search_query.len() == 0,
            Tap::ClearSearch => !b.search_active && b.search_query.len() == 0,
            Tap::AskRotate => b.settings_edit == MobileEdit::ConfirmRotate,
            Tap::AskRevoke => b.settings_edit == MobileEdit::ConfirmRevoke,
            Tap::EditAutoDelete => b.settings_edit == MobileEdit::AutoDelete,
            Tap::SaveAutoDelete | Tap::CancelEdit => b.settings_edit == MobileEdit::Closed,
            Tap::ShowCode => b.tab == Tab::Contacts && b.contact_mode == MobileMode::ExportCode,
            _ => true,
        },
{
}

/// Deleting removes the selected contact and no other; verifying marks it and
/// nobody else.
pub proof fn taps_on_a_contact_act_on_it(
    a: MobileView,
    v: VaultView,
    b: MobileView,
    after: VaultView,
    w: VaultView,
    c: MobileView,
)
    requires
        a.selected_contact < v.payload.contacts.len() <= usize::MAX,
        tapped(a, v, Tap::Delete, b, after),
        tapped(a, v, Tap::Verify, c, w),
    ensures
        after.payload.contacts == v.payload.contacts.remove(a.selected_contact as int),
        after.payload.conversations == v.payload.conversations,
        after.payload.contacts.len() > 0 ==> b.selected_contact < after.payload.contacts.len(),
        w.payload.contacts.len() == v.payload.contacts.len(),
        w.payload.contacts[a.selected_contact as int].verified,
        w.payload.contacts[a.selected_contact as int].bundle
            == v.payload.contacts[a.selected_contact as int].bundle,
        w.payload.contacts[a.selected_contact as int].display_name
            == v.payload.contacts[a.selected_contact as int].display_name,
        forall|j: int|
            0 <= j < v.payload.contacts.len() && j != a.selected_contact
                ==> #[trigger] w.payload.contacts[j] == v.payload.contacts[j],
        c.selected_contact == a.selected_contact,
{
}

/// The vault changes under no tap but those that are for it.
pub proof fn other_taps_leave_the_vault_alone(
    a: MobileView,
    v: VaultView,
    tap: Tap,
    after: VaultView,
    e: Effects,
)
    requires
        tap_effects(a, v, tap, after, e),
        !(tap == Tap::Send || tap == Tap::Messages || tap == Tap::SubmitCode || tap == Tap::Accept
            || tap == Tap::SaveAutoDelete || tap == Tap::AcceptKey || tap == Tap::RejectKey || tap
            == Tap::Verify || tap == Tap::Delete),
    ensures
        after == v,
        e.saved is None,
        e.sent@.len() == 0,
        e.message is None,
        e.new_circuit ==> tap == Tap::RefreshCircuit,
{
}

/// A contact code adds its contact: it stands at the end of the list, not
/// verified, with the bundle that the code holds. The others stay.
pub proof fn contact_codes_add_their_contact_on_the_phone(
    a: MobileView,
    v: VaultView,
    b: MobileView,
    after: VaultView,
    bundle: BundleView,
)
    requires
        !BOOTSTRAP_PREFIX@.is_prefix_of(trim_start_spec(trim_spec(a.add_contact_buf))),
        contact_read(trim_spec(a.add_contact_buf)) == Ok::<BundleView, IdentityError>(bundle),
        v.payload.sequence < u64::MAX,
        tapped(a, v, Tap::SubmitCode, b, after),
    ensures
        after.payload.contacts.len() == v.payload.contacts.len() + 1,
        after.payload.contacts.last().bundle == bundle,
        !after.payload.contacts.last().verified,
        after.payload.contacts.last().display_name == contact_label(
            v.payload.contacts.len() + 1,
        ),
        forall|i: int|
            0 <= i < v.payload.contacts.len() ==> #[trigger] after.payload.contacts[i]
                == v.payload.contacts[i],
        after.payload.conversations == v.payload.conversations,
        b.contact_mode == MobileMode::List,
        b.add_contact_buf.len() == 0,
{
}

/// A code that adds no contact leaves the vault alone.
pub proof fn other_codes_add_nobody(
    a: MobileView,
    v: VaultView,
    b: MobileView,
    after: VaultView,
)
    requires
        contact_read(trim_spec(a.add_contact_buf)) is Err,
        tapped(a, v, Tap::SubmitCode, b, after),
    ensures
        after == v,
{
}

/// The answer to an alert: accepting the key marks the contact as verified,
/// rejecting it removes the contact; the alert is over either way.
pub proof fn alerts_on_the_phone_are_answered(
    a: MobileView,
    v: VaultView,
    b: MobileView,
    after: VaultView,
    c: MobileView,
    w: VaultView,
)
    requires
        a.selected_contact < v.payload.contacts.len(),
        tapped(a, v, Tap::AcceptKey, b, after),
        tapped(a, v, Tap::RejectKey, c, w),
    ensures
        b.screen == Screen::Main,
        c.screen == Screen::Main,
        after.payload.contacts.len() == v.payload.contacts.len(),
        after.payload.contacts[a.selected_contact as int].verified,
        forall|j: int|
            0 <= j < v.payload.contacts.len() && j != a.selected_contact
                ==> #[trigger] after.payload.contacts[j] == v.payload.contacts[j],
        w.payload.contacts == v.payload.contacts.remove(a.selected_contact as int),
{
}

/// Sending takes the draft to the letter to the address of the selected contact
/// and empties the field; what cannot be sent leaves the vault alone.
pub proof fn sending_on_the_phone_takes_the_draft(
    a: MobileView,
    v: VaultView,
    b: MobileView,
    after: VaultView,
    e: Effects,
)
    requires
        a.draft.len() > 0,
        tapped(a, v, Tap::Send, b, after),
        tap_effects(a, v, Tap::Send, after, e),
    ensures
        b.draft.len() == 0,
        b.messages == a.messages,
        e.saved is None && e.sent@.len() == 0,
        send_error(v, Some(a.selected_contact), encode_utf8(a.draft).len()) is None
            && a.connected ==> {
            let c = v.payload.contacts[a.selected_contact as int];
            &&& e.message matches Some(d)
            &&& d.contact_id@ == c.id
            &&& d.plaintext@ == encode_utf8(a.draft)
            &&& d.outgoing.to@ == c.bundle.nym_address
            &&& composed(v, after, c, encode_utf8(a.draft), d.outgoing.payload@)
        },
        !a.connected ==> e.message is None,
        send_error(v, Some(a.selected_contact), encode_utf8(a.draft).len()) is Some
            ==> e.message is None && after == v,
{
}

/// The messages on screen are those of the selected contact, in full, and count
/// as read; the other conversations stay.
pub proof fn open_conversations_are_read_on_the_phone(
    a: MobileView,
    v: VaultView,
    after: VaultView,
    e: Effects,
    other: Seq<u8>,
)
    requires
        a.selected_contact < v.payload.contacts.len(),
        v.payload.sequence < u64::MAX,
        other != v.payload.contacts[a.selected_contact as int].id,
        reload_outcome(a, v, after, e),
    ensures
        ({
            let id = v.payload.contacts[a.selected_contact as int].id;
            &&& reloaded(a, v).messages == v.messages(id)
            &&& reloaded(a, v).loaded_contact == Some(a.selected_contact)
            &&& after.unread(id) == 0
            &&& after.messages(id) == v.messages(id)
            &&& after.session(id) == v.session(id)
        }),
        after.unread(other) == v.unread(other),
        after.messages(other) == v.messages(other),
        after.payload.contacts == v.payload.contacts,
{
    let id = v.payload.contacts[a.selected_contact as int].id;
    if v.unread(id) > 0 {
        other_conversations_are_kept(v, after.at(v.payload.sequence), id, other);
    }
}

/// The threshold that was typed is kept, and nothing else changes.
pub proof fn thresholds_are_kept_on_the_phone(
    a: MobileView,
    v: VaultView,
    b: MobileView,
    after: VaultView,
)
    requires
        tapped(a, v, Tap::SaveAutoDelete, b, after),
    ensures
        after.payload.settings.default_auto_delete == threshold_in(a.edit_buf),
        after.payload.settings.tor_socks_addr == v.payload.settings.tor_socks_addr,
        after.payload.settings.nym_gateway == v.payload.settings.nym_gateway,
        after.payload.contacts == v.payload.contacts,
        after.payload.conversations == v.payload.conversations,
        after.payload.identity_kem_secret == v.payload.identity_kem_secret,
{
}

/// A contact request that comes in on the phone stands last in the queue behind
/// all the others, while there is room; a full queue keeps what it has.
pub proof fn requests_queue_on_the_phone(
    a: MobileView,
    v: VaultView,
    w: WireView,
    b: MobileView,
    after: VaultView,
    e: Effects,
    h: OpenedView,
)
    requires
        w.msg_type == WireMessageType::Handshake,
        handshake_opened(v.payload, w.ciphertext) == Some(h),
        mobile_incoming(a, v, Some(w), b, after, e),
    ensures
        a.pending.len() < MAX_PENDING_HANDSHAKES ==> b.pending.len() == a.pending.len() + 1
            && b.pending.last() == h && b.pending.take(a.pending.len() as int) == a.pending,
        a.pending.len() >= MAX_PENDING_HANDSHAKES ==> b == a && after == v,
        after.payload.contacts == v.payload.contacts,
        after.payload.conversations == v.payload.conversations,
        e.sent@.len() == 0,
{
    assert(a.pending.push(h).take(a.pending.len() as int) =~= a.pending);
}

/// The author of a message is the first contact of the list whose session opens
/// it and whose tag is right, wherever it stands.
pub proof fn author_is_found(v: VaultView, header: HeaderView, ct: Seq<u8>, tag: Seq<u8>)
    ensures
        match author_from(v, header, ct, tag, 0) {
            Some(i) => {
                &&& 0 <= i < v.payload.contacts.len()
                &&& authentic(v, v.payload.contacts[i].id, header, ct, tag)
                &&& forall|j: int|
                    0 <= j < i ==> !authentic(
                        v,
                        (#[trigger] v.payload.contacts[j]).id,
                        header,
                        ct,
                        tag,
                    )
            },
            None => forall|j: int|
                0 <= j < v.payload.contacts.len() ==> !authentic(
                    v,
                    (#[trigger] v.payload.contacts[j]).id,
                    header,
                    ct,
                    tag,
                ),
        },
{
    lemma_author_is_first(v, header, ct, tag, 0);
}

proof fn lemma_author_is_first(
    v: VaultView,
    header: HeaderView,
    ct: Seq<u8>,
    tag: Seq<u8>,
    from: int,
)
    requires
        0 <= from <= v.payload.contacts.len(),
    ensures
        match author_from(v, header, ct, tag, from) {
            Some(i) => {
                &&& from <= i < v.payload.contacts.len()
                &&& authentic(v, v.payload.contacts[i].id, header, ct, tag)
                &&& forall|j: int|
                    from <= j < i ==> !authentic(
                        v,
                        (#[trigger] v.payload.contacts[j]).id,
                        header,
                        ct,
                        tag,
                    )
            },
            None => forall|j: int|
                from <= j < v.payload.contacts.len() ==> !authentic(
                    v,
                    (#[trigger] v.payload.contacts[j]).id,
                    header,
                    ct,
                    tag,
                ),
        },
    decreases v.payload.contacts.len() - from,
{
    if from < v.payload.contacts.len() && !authentic(
        v,
        v.payload.contacts[from].id,
        header,
        ct,
        tag,
    ) {
        lemma_author_is_first(v, header, ct, tag, from + 1);
    }
}

/// Whether the contact at `i` is the first whose session opens a message, with
/// the text `t` in it and the right tag on it.
pub open spec fn written_by(
    v: VaultView,
    header: HeaderView,
    ct: Seq<u8>,
    tag: Seq<u8>,
    i: int,
    t: Seq<char>,
) -> bool {
    &&& 0 <= i < v.payload.contacts.len()
    &&& trial(v, v.payload.contacts[i].id, header, ct) matches Some((plain, mac_key))
    &&& plain == encode_utf8(t)
    &&& tag_accepted(tag, mac_key, header, ct)
    &&& forall|j: int|
        0 <= j < i ==> trial(v, (#[trigger] v.payload.contacts[j]).id, header, ct) is None
}

proof fn lemma_author_of(
    v: VaultView,
    header: HeaderView,
    ct: Seq<u8>,
    tag: Seq<u8>,
    i: int,
    t: Seq<char>,
)
    requires
        written_by(v, header, ct, tag, i, t),
    ensures
        author_from(v, header, ct, tag, 0) == Some(i),
{
    author_is_found(v, header, ct, tag);
    assert(authentic(v, v.payload.contacts[i].id, header, ct, tag));
}

/// A data message of a contact is logged behind what stands there, to the
/// letter, counts as unread, and shows where that conversation is loaded.
pub proof fn data_messages_arrive_on_the_phone(
    a: MobileView,
    v: VaultView,
    header: HeaderView,
    ct: Seq<u8>,
    tag: Seq<u8>,
    b: MobileView,
    after: VaultView,
    e: Effects,
    i: int,
    t: Seq<char>,
)
    requires
        mobile_ciphertext(a, v, header, ct, tag, b, after, e),
        written_by(v, header, ct, tag, i, t),
        is_plain(t),
        v.payload.sequence < u64::MAX,
    ensures
        ({
            let id = v.payload.contacts[i].id;
            let log = logged(v.messages(id), t, false);
            &&& sealable(put_list_spec::<StoredMessage>(log).len()) ==> after.messages(id) == log
            &&& after.unread(id) == v.unread(id) + 1
            &&& a.loaded_contact == Some(i as usize) && i <= usize::MAX ==> b.messages == log
            &&& (a.loaded_contact is None || a.loaded_contact->0 != i) ==> b.messages == a.messages
            &&& b.pending == a.pending
        }),
        e.sent@.len() == 0,
{
    lemma_author_of(v, header, ct, tag, i, t);
    phone_keeps_messages_to_the_letter(t);
}

/// A data message touches the conversation of its author and no other, and no
/// contact.
pub proof fn data_messages_leave_the_others_alone_on_the_phone(
    a: MobileView,
    v: VaultView,
    header: HeaderView,
    ct: Seq<u8>,
    tag: Seq<u8>,
    b: MobileView,
    after: VaultView,
    e: Effects,
    i: int,
    t: Seq<char>,
    other: Seq<u8>,
)
    requires
        mobile_ciphertext(a, v, header, ct, tag, b, after, e),
        written_by(v, header, ct, tag, i, t),
        v.payload.sequence < u64::MAX,
        other != v.payload.contacts[i].id,
    ensures
        after.payload.contacts == v.payload.contacts,
        after.messages(other) == v.messages(other),
        after.session(other) == v.session(other),
        after.unread(other) == v.unread(other),
{
    lemma_author_of(v, header, ct, tag, i, t);
    let talk = after.at(v.payload.sequence);
    other_conversations_are_kept(v, talk, v.payload.contacts[i].id, other);
}

/// The signer of a certificate is the first contact of the list under whose
/// keys it is, wherever it stands; none only where there is none.
pub proof fn signer_is_found(contacts: Seq<ContactView>, cert: RevocationView)
    ensures
        match signer_from(contacts, cert, 0) {
            Some(i) => {
                &&& 0 <= i < contacts.len()
                &&& cert.signed_by(contacts[i].bundle)
                &&& forall|j: int|
                    0 <= j < i ==> !cert.signed_by((#[trigger] contacts[j]).bundle)
            },
            None => forall|j: int|
                0 <= j < contacts.len() ==> !cert.signed_by((#[trigger] contacts[j]).bundle),
        },
{
    lemma_signer_is_first(contacts, cert, 0);
}

proof fn lemma_signer_is_first(contacts: Seq<ContactView>, cert: RevocationView, from: int)
    requires
        0 <= from <= contacts.len(),
    ensures
        match signer_from(contacts, cert, from) {
            Some(i) => {
                &&& from <= i < contacts.len()
                &&& cert.signed_by(contacts[i].bundle)
                &&& forall|j: int|
                    from <= j < i ==> !cert.signed_by((#[trigger] contacts[j]).bundle)
            },
            None => forall|j: int|
                from <= j < contacts.len() ==> !cert.signed_by((#[trigger] contacts[j]).bundle),
        },
    decreases contacts.len() - from,
{
    if from < contacts.len() && !cert.signed_by(contacts[from].bundle) {
        lemma_signer_is_first(contacts, cert, from + 1);
    }
}

/// Whether the contact at `i` is the first that signed a certificate.
pub open spec fn first_signer(contacts: Seq<ContactView>, cert: RevocationView, i: int) -> bool {
    &&& 0 <= i < contacts.len()
    &&& cert.signed_by(contacts[i].bundle)
    &&& forall|j: int| 0 <= j < i ==> !cert.signed_by((#[trigger] contacts[j]).bundle)
}

/// A rotation that comes in on the phone takes the verified mark off the one
/// contact that signed it, wherever it stands, and raises the alert, which names
/// that contact. Nobody leaves the list.
#[verifier::rlimit(50)]
pub proof fn rotations_on_the_phone_alert_the_user(
    a: MobileView,
    v: VaultView,
    w: WireView,
    b: MobileView,
    after: VaultView,
    e: Effects,
    cert: RevocationView,
    i: int,
)
    requires
        w.msg_type == WireMessageType::Revocation,
        mobile_incoming(a, v, Some(w), b, after, e),
        RevocationCertificate::take_spec(w.ciphertext) matches Some((c, _)) && c == cert,
        cert.reason == RevocationReason::Rotation,
        first_signer(v.payload.contacts, cert, i),
    ensures
        b.screen == Screen::KeyAlert,
        has_part(b.status, v.payload.contacts[i].display_name),
        b.pending == a.pending,
        after.payload.contacts == v.payload.contacts.update(
            i,
            (ContactView { verified: false, ..v.payload.contacts[i] }),
        ),
        after.payload.conversations == v.payload.conversations,
        e.sent@.len() == 0,
{
    signer_is_found(v.payload.contacts, cert);
    assert(signer_from(v.payload.contacts, cert, 0) == Some(i));
    parts_are_held(
        "Key rotated for '"@,
        v.payload.contacts[i].display_name,
        "' — re-verify fingerprint."@,
    );
}

/// Any other certificate of a contact is told by that contact's name and changes
/// no contact.
#[verifier::rlimit(50)]
pub proof fn retirements_on_the_phone_are_told(
    a: MobileView,
    v: VaultView,
    w: WireView,
    b: MobileView,
    after: VaultView,
    e: Effects,
    cert: RevocationView,
    i: int,
)
    requires
        w.msg_type == WireMessageType::Revocation,
        mobile_incoming(a, v, Some(w), b, after, e),
        RevocationCertificate::take_spec(w.ciphertext) matches Some((c, _)) && c == cert,
        cert.reason != RevocationReason::Rotation,
        first_signer(v.payload.contacts, cert, i),
    ensures
        has_part(b.status, v.payload.contacts[i].display_name),
        b.screen == a.screen,
        b.pending == a.pending,
        after.payload.contacts == v.payload.contacts,
        after.payload.conversations == v.payload.conversations,
        e.sent@.len() == 0,
{
    signer_is_found(v.payload.contacts, cert);
    assert(signer_from(v.payload.contacts, cert, 0) == Some(i));
    parts_are_held("'"@, v.payload.contacts[i].display_name, "' has retired their key."@);
}

/// A certificate under no contact's keys leaves no trace on the phone.
#[verifier::rlimit(50)]
pub proof fn unsigned_revocations_leave_no_trace_on_the_phone(
    a: MobileView,
    v: VaultView,
    w: WireView,
    b: MobileView,
    after: VaultView,
    e: Effects,
    cert: RevocationView,
)
    requires
        w.msg_type == WireMessageType::Revocation,
        mobile_incoming(a, v, Some(w), b, after, e),
        RevocationCertificate::take_spec(w.ciphertext) matches Some((c, _)) && c == cert,
        forall|j: int|
            0 <= j < v.payload.contacts.len() ==> !cert.signed_by(
                (#[trigger] v.payload.contacts[j]).bundle,
            ),
    ensures
        b == a,
        after == v,
        is_quiet(e),
{
    signer_is_found(v.payload.contacts, cert);
    assert(signer_from(v.payload.contacts, cert, 0) is None);
}

/// What is neither a handshake nor a data message nor a revocation leaves no
/// trace on the phone.
pub proof fn cover_traffic_leaves_no_trace_on_the_phone(
    a: MobileView,
    v: VaultView,
    w: Option<WireView>,
    b: MobileView,
    after: VaultView,
    e: Effects,
)
    requires
        mobile_incoming(a, v, w, b, after, e),
        w is None || (w->0.msg_type != WireMessageType::Handshake && w->0.msg_type
            != WireMessageType::Data && w->0.msg_type != WireMessageType::Revocation),
    ensures
        b == a,
        after == v,
        is_quiet(e),
{
}

/// The codes on the phone are those of the keys in the vault, where there are
/// keys, and nothing else on screen changes.
pub proof fn codes_are_those_of_the_vault(a: MobileView, v: VaultView)
    ensures
        v.payload.our_bundle() is Some ==> coded(a, v).export_code == export_text(v.payload)
            && coded(a, v).bootstrap_code == bootstrap_text(v.payload),
        coded(a, v) == (MobileView {
            export_code: coded(a, v).export_code,
            bootstrap_code: coded(a, v).bootstrap_code,
            ..a
        }),
{
}

/// A row of the contact list starts with the name and tells verified contacts
/// from the others.
pub proof fn rows_start_with_the_name(name: Seq<char>, unread: u32)
    requires
        is_plain(name),
    ensures
        name.is_prefix_of(row_label(name, true, unread)),
        name.is_prefix_of(row_label(name, false, unread)),
        row_label(name, true, unread) != row_label(name, false, unread),
{
    plain_text_is_kept(name);
    reveal_strlit(" \u{2713}");
    reveal_strlit(" \u{26A0} UNVERIFIED");
    let yes = row_label(name, true, unread);
    let no = row_label(name, false, unread);
    assert(name =~= yes.subrange(0, name.len() as int));
    assert(name =~= no.subrange(0, name.len() as int));
    assert(yes[name.len() as int + 1] == '\u{2713}');
    assert(no[name.len() as int + 1] == '\u{26A0}');
}

/// A row shows the unread count where there is one, and tells counts apart.
pub proof fn rows_show_the_unread_count(name: Seq<char>, verified: bool, unread: u32)
    requires
        unread > 0,
    ensures
        has_part(row_label(name, verified, unread), decimal(unread as nat)),
        row_label(name, verified, 0).is_prefix_of(row_label(name, verified, unread)),
        row_label(name, verified, 0).len() < row_label(name, verified, unread).len(),
{
    reveal_strlit(" (");
    let bare = row_label(name, verified, 0);
    let full = row_label(name, verified, unread);
    assert(full == bare + " ("@ + decimal(unread as nat) + ")"@);
    parts_are_held(bare + " ("@, decimal(unread as nat), ")"@);
    assert(bare =~= full.subrange(0, bare.len() as int));
}

} // verus!
