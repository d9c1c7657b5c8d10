//! What the keys of the terminal are for: laws on what a key press does to the
//! contact list, the queue of requests, the fields and the outside, whichever
//! way it does it.
use crate::codec::{put_list_spec, Record};
use crate::crypto::keys::BundleView;
use crate::crypto::ratchet::bob_start;
use crate::crypto::suite::{sealable, sha256, x25519_base};
use crate::error::IdentityError;
use crate::identity::profile::{
    bootstrap_read, contact_read, BootstrapView, BOOTSTRAP_PREFIX,
};
use crate::identity::revocation::{RevocationCertificate, RevocationReason, RevocationView};
use crate::messenger::bundles::{
    accepted_answer, is_answer, is_request, request_bytes, sealed_to, unsealed, RequestRecord,
};
use crate::messenger::contacts::contact_label;
use crate::messenger::identity::{bootstrap_text, export_text, rekeyed};
use crate::messenger::incoming::{
    handshake_opened, is_harmless, messages_are_kept_to_the_letter, owner_is_found, prekey_spent,
    sender_is_found, DataOutcome, OpenedView,
};
use crate::messenger::outgoing::{composed, send_error};
use crate::messenger::rotation::{announces, outgoing_views};
use crate::messenger::sessions::{logged, other_conversations_are_kept};
use crate::network::message::{WireMessageType, WireView};
use crate::storage::records::{StoredMessage, StoredMessageView};
use crate::storage::vault::{SavedVault, VaultView};
use crate::text::{
    decimal, decimal_is_read_back, has_part, is_digit, is_space, lower, part_at,
    trim_is_exact, trim_spec,
};
use crate::ui::app::{
    data_outcome, incoming_outcome, key_app, key_outcome, queued, refreshed_app, refreshed_vault,
};
use crate::ui::contact_keys::contacts_outcome;
use crate::ui::conversation_keys::{match_count, sent_app, sent_vault};
use crate::ui::settings_keys::threshold_in;
use crate::ui::state::{
    help_text, AppView, ContactMode, Effects, Key, KeyPress, SettingsEditMode, Tab,
    MAX_PENDING_HANDSHAKES, NUM_SETTINGS,
};
use vstd::prelude::*;
use vstd::string::StringSliceAdditionalSpecFns;
use vstd::utf8::encode_utf8;

verus! {

/// A key without the control key.
pub open spec fn plain(key: Key) -> KeyPress {
    KeyPress { key, control: false }
}

/// Whether nothing is saved, sent or asked of Tor.
pub open spec fn is_quiet(e: Effects) -> bool {
    e.saved is None && e.sent@.len() == 0 && e.message is None && !e.new_circuit
}

/// Control-C ends the program wherever the user is, and does nothing else.
pub proof fn interrupt_ends_the_program(a: AppView, v: VaultView, after: VaultView, e: Effects)
    requires
        key_outcome(a, v, (KeyPress { key: Key::Char('c'), control: true }), after, e),
    ensures
        !key_app(a, v, (KeyPress { key: Key::Char('c'), control: true }), after).running,
        after == v,
        is_quiet(e),
{
}

/// Accepting a contact request takes that one from the queue and no other: the
/// waiting requests are one fewer, and each of the others moves up one place.
/// The new contact has the bundle of the request and the name that was typed,
/// its session starts under the key of the request, and what it wrote stands
/// alone in its log. The contacts that were there stay as they were.
pub proof fn accepting_takes_one_request(
    a: AppView,
    v: VaultView,
    after: VaultView,
    e: Effects,
)
    requires
        a.tab == Tab::Contacts,
        a.contact_mode == ContactMode::PendingRequest,
        a.pending.len() > 0,
        trim_spec(a.pending_name_buf).len() > 0,
        v.payload.sequence < u64::MAX - 1,
        key_outcome(a, v, plain(Key::Enter), after, e),
    ensures
        key_app(a, v, plain(Key::Enter), after).pending.len() == a.pending.len() - 1,
        forall|j: int|
            1 <= j < a.pending.len() ==> key_app(a, v, plain(Key::Enter), after).pending[j - 1]
                == #[trigger] a.pending[j],
        key_app(a, v, plain(Key::Enter), after).requests == a.requests,
        after.payload.contacts.len() == v.payload.contacts.len() + 1,
        forall|i: int|
            0 <= i < v.payload.contacts.len() ==> #[trigger] after.payload.contacts[i]
                == v.payload.contacts[i],
        after.payload.contacts.last().bundle == a.pending[0].bundle,
        after.payload.contacts.last().display_name == trim_spec(a.pending_name_buf),
        !after.payload.contacts.last().verified,
        after.payload.opk_secrets == v.payload.opk_secrets,
        after.payload.settings == v.payload.settings,
        v.payload.ratchet_secret() is Some ==> {
            let id = after.payload.contacts.last().id;
            let c = key_app(a, v, plain(Key::Enter), after);
            &&& after.session(id) == Some(
                bob_start(a.pending[0].session_key, v.payload.ratchet_secret()->0),
            )
            &&& e.saved is Some || !sealable(
                <crate::storage::payload::VaultPayload as crate::codec::Record>::put_spec(
                    after.payload,
                ).len(),
            )
            &&& e.sent@.len() == 0
            &&& c.contact_mode == ContactMode::List
            &&& c.selected == Some(v.payload.contacts.len() as usize)
            &&& c.pending_name_buf.len() == 0
        },
{
    let base = v.with_contact(a.pending[0].bundle, trim_spec(a.pending_name_buf));
    let id = sha256(a.pending[0].bundle.bytes());
    if v.payload.ratchet_secret() is Some {
        let talk = after.at(base.payload.sequence);
        lemma_talk_keeps_contacts(base, talk, id);
    }
}

/// The first message of an accepted request is logged to the letter as one of
/// the new contact, and no other conversation is touched.
pub proof fn accepting_logs_the_first_message(
    a: AppView,
    v: VaultView,
    after: VaultView,
    e: Effects,
    t: Seq<char>,
    other: Seq<u8>,
)
    requires
        a.tab == Tab::Contacts,
        a.contact_mode == ContactMode::PendingRequest,
        a.pending.len() > 0,
        trim_spec(a.pending_name_buf).len() > 0,
        v.payload.sequence < u64::MAX - 1,
        v.payload.ratchet_secret() is Some,
        key_outcome(a, v, plain(Key::Enter), after, e),
        a.pending[0].plaintext == encode_utf8(t),
        is_harmless(t),
        other != sha256(a.pending[0].bundle.bytes()),
    ensures
        ({
            let first = StoredMessageView { counter: 1, content: t, from_us: false };
            sealable(put_list_spec::<StoredMessage>(seq![first]).len()) ==> after.messages(
                sha256(a.pending[0].bundle.bytes()),
            ) == seq![first]
        }),
        after.messages(other) == v.messages(other),
        after.session(other) == v.session(other),
        after.unread(other) == v.unread(other),
{
    messages_are_kept_to_the_letter(t);
    let base = v.with_contact(a.pending[0].bundle, trim_spec(a.pending_name_buf));
    let id = sha256(a.pending[0].bundle.bytes());
    let talk = after.at(base.payload.sequence);
    other_conversations_are_kept(base, talk, id, other);
}

/// A change to one conversation leaves everything but the conversations alone.
proof fn lemma_talk_keeps_contacts(before: VaultView, after: VaultView, id: Seq<u8>)
    requires
        crate::messenger::sessions::only_talk_changed(before, after, id),
    ensures
        after == before.with_conversations(after.payload.conversations),
{
    other_conversations_are_kept(before, after, id, id.push(0));
}

/// Rejecting a contact request drops that one and no other, and leaves the
/// vault alone.
pub proof fn rejecting_drops_one_request(a: AppView, v: VaultView, after: VaultView, e: Effects)
    requires
        a.tab == Tab::Contacts,
        a.contact_mode == ContactMode::PendingRequest,
        a.pending.len() > 0,
        key_outcome(a, v, plain(Key::Esc), after, e),
    ensures
        key_app(a, v, plain(Key::Esc), after).pending.len() == a.pending.len() - 1,
        forall|j: int|
            1 <= j < a.pending.len() ==> key_app(a, v, plain(Key::Esc), after).pending[j - 1]
                == #[trigger] a.pending[j],
        key_app(a, v, plain(Key::Esc), after).contact_mode == ContactMode::List,
        key_app(a, v, plain(Key::Esc), after).requests == a.requests,
        after == v,
        is_quiet(e),
{
}

/// A request without a name stays where it is.
pub proof fn nameless_requests_wait(a: AppView, v: VaultView, after: VaultView, e: Effects)
    requires
        a.tab == Tab::Contacts,
        a.contact_mode == ContactMode::PendingRequest,
        a.pending.len() > 0,
        trim_spec(a.pending_name_buf).len() == 0,
        key_outcome(a, v, plain(Key::Enter), after, e),
    ensures
        key_app(a, v, plain(Key::Enter), after).pending == a.pending,
        key_app(a, v, plain(Key::Enter), after).contact_mode == ContactMode::PendingRequest,
        after == v,
        is_quiet(e),
{
}

/// No key but Enter and Esc in the review of a request touches the queue, and
/// the requests can only be reviewed where there are any.
pub proof fn requests_wait_for_the_user(
    a: AppView,
    v: VaultView,
    key: Key,
    after: VaultView,
    e: Effects,
)
    requires
        key_outcome(a, v, plain(key), after, e),
        !(a.tab == Tab::Contacts && a.contact_mode == ContactMode::PendingRequest && (key
            == Key::Enter || key == Key::Esc)),
    ensures
        key_app(a, v, plain(key), after).pending == a.pending,
        a.tab == Tab::Contacts && a.contact_mode == ContactMode::List && key == Key::Char('p') ==> (
        key_app(a, v, plain(key), after).contact_mode == ContactMode::PendingRequest
            <==> a.pending.len() > 0),
{
}

/// A contact request that comes in stands last in the queue. The ones that wait
/// keep their order; none is lost unless the queue is full, and then only the
/// oldest.
pub proof fn queue_keeps_the_others(pending: Seq<OpenedView>, h: OpenedView)
    requires
        pending.len() <= MAX_PENDING_HANDSHAKES,
    ensures
        queued(pending, h).last() == h,
        pending.len() < MAX_PENDING_HANDSHAKES ==> queued(pending, h).len() == pending.len() + 1
            && forall|j: int|
            0 <= j < pending.len() ==> queued(pending, h)[j] == #[trigger] pending[j],
        pending.len() == MAX_PENDING_HANDSHAKES ==> queued(pending, h).len() == pending.len()
            && forall|j: int|
            1 <= j < pending.len() ==> queued(pending, h)[j - 1] == #[trigger] pending[j],
{
}

/// The help line tells how many requests wait, wherever any do.
pub proof fn help_tells_the_number_of_requests(n: nat)
    ensures
        n > 0 ==> has_part(help_text(n), "p:pending("@ + decimal(n) + ")"@),
{
    if n > 0 {
        let h = help_text(n);
        let front = "Tab:switch  ↑↓:nav  a:add  e:export  v:verify  d:delete  p:pending("@;
        let p = "p:pending("@ + decimal(n) + ")"@;
        reveal_strlit("Tab:switch  ↑↓:nav  a:add  e:export  v:verify  d:delete  p:pending(");
        reveal_strlit("p:pending(");
        reveal_strlit(")");
        reveal_strlit(")  q:quit");
        let i = front.len() - 10;
        assert(h.subrange(i, i + p.len()) =~= p);
        assert(part_at(h, p, i));
    }
}

/// Typing puts the character at the end of the field that is open, and the
/// backspace takes it away again; the vault is left alone.
pub proof fn typing_goes_to_the_open_field(
    a: AppView,
    v: VaultView,
    c: char,
    after: VaultView,
    e: Effects,
)
    requires
        a.contact_mode != ContactMode::KeyAlert,
        key_outcome(a, v, plain(Key::Char(c)), after, e),
    ensures
        ({
            let b = key_app(a, v, plain(Key::Char(c)), after);
            let back = key_app(b, v, plain(Key::Backspace), after);
            &&& a.tab == Tab::Contacts && a.contact_mode == ContactMode::AddContact ==> {
                &&& b.add_buf == a.add_buf.push(c)
                &&& back.add_buf == a.add_buf
                &&& b.contact_mode == a.contact_mode
                &&& after == v && is_quiet(e)
            }
            &&& a.tab == Tab::Contacts && a.contact_mode == ContactMode::PendingRequest ==> {
                &&& b.pending_name_buf == a.pending_name_buf.push(c)
                &&& back.pending_name_buf == a.pending_name_buf
                &&& b.contact_mode == a.contact_mode
                &&& after == v && is_quiet(e)
            }
            &&& a.tab == Tab::Conversation && !a.search_active && c != '/' ==> {
                &&& b.draft == a.draft.push(c)
                &&& back.draft == a.draft
                &&& b.tab == a.tab
                &&& after == v && is_quiet(e)
            }
            &&& a.tab == Tab::Conversation && !a.search_active && c == '/' ==> {
                &&& b.draft == a.draft
                &&& b.search_active
                &&& b.search_query.len() == 0
            }
            &&& a.tab == Tab::Conversation && a.search_active ==> {
                &&& b.search_query == a.search_query.push(c)
                &&& back.search_query == a.search_query
                &&& b.draft == a.draft
                &&& b.search_active
                &&& b.messages == a.messages
                &&& after == v && is_quiet(e)
            }
            &&& a.tab == Tab::Settings && (a.settings_edit_mode == SettingsEditMode::EditTorAddr
                || a.settings_edit_mode == SettingsEditMode::EditAutoDelete) ==> {
                &&& b.settings_edit_buf == a.settings_edit_buf.push(c)
                &&& back.settings_edit_buf == a.settings_edit_buf
                &&& b.settings_edit_mode == a.settings_edit_mode
                &&& after == v && is_quiet(e)
            }
        }),
{
    assert(a.add_buf.push(c).drop_last() =~= a.add_buf);
    assert(a.pending_name_buf.push(c).drop_last() =~= a.pending_name_buf);
    assert(a.draft.push(c).drop_last() =~= a.draft);
    assert(a.search_query.push(c).drop_last() =~= a.search_query);
    assert(a.settings_edit_buf.push(c).drop_last() =~= a.settings_edit_buf);
}

/// The arrows move the selection by one contact, round the ends of the list:
/// down and then up leads back to where it was, and the selection is always a
/// contact. Nothing else changes.
pub proof fn arrows_move_by_one(a: AppView, v: VaultView, after: VaultView, i: usize)
    requires
        a.tab == Tab::Contacts,
        a.contact_mode == ContactMode::List || a.contact_mode == ContactMode::Fingerprint,
        a.selected == Some(i),
        i < v.payload.contacts.len() <= usize::MAX,
    ensures
        ({
            let down = key_app(a, v, plain(Key::Down), after);
            let up = key_app(a, v, plain(Key::Up), after);
            &&& i + 1 < v.payload.contacts.len() ==> down.selected == Some((i + 1) as usize)
            &&& i + 1 == v.payload.contacts.len() ==> down.selected == Some(0usize)
            &&& i > 0 ==> up.selected == Some((i - 1) as usize)
            &&& i == 0 ==> up.selected == Some((v.payload.contacts.len() - 1) as usize)
            &&& key_app(down, v, plain(Key::Up), after) == a
            &&& key_app(up, v, plain(Key::Down), after) == a
            &&& down == (AppView { selected: down.selected, ..a })
            &&& up == (AppView { selected: up.selected, ..a })
        }),
{
    let n = v.payload.contacts.len() as int;
    if i + 1 < n {
        vstd::arithmetic::div_mod::lemma_small_mod((i + 1) as nat, n as nat);
    } else {
        vstd::arithmetic::div_mod::lemma_mod_self_0(n);
    }
    vstd::arithmetic::div_mod::lemma_small_mod(i as nat, n as nat);
    vstd::arithmetic::div_mod::lemma_mod_self_0(n);
}

/// Deleting removes the selected contact and no other.
pub proof fn deleting_removes_the_selected(
    a: AppView,
    v: VaultView,
    after: VaultView,
    e: Effects,
    i: usize,
)
    requires
        a.tab == Tab::Contacts,
        a.contact_mode == ContactMode::List || a.contact_mode == ContactMode::Fingerprint,
        a.selected == Some(i),
        i < v.payload.contacts.len() <= usize::MAX,
        v.payload.sequence < u64::MAX,
        key_outcome(a, v, plain(Key::Char('d')), after, e),
    ensures
        after.payload.contacts == v.payload.contacts.remove(i as int),
        after.payload.conversations == v.payload.conversations,
        after.payload.sequence == v.payload.sequence + 1,
        e.sent@.len() == 0,
{
    let contacts = v.payload.contacts;
    assert(contacts_outcome(a, v, Key::Char('d'), after, e));
    assert(after == v.with_contacts(contacts.remove(i as int)).next());
}

/// After a deletion the selection is a contact of the shorter list, if one is
/// left: the one that moved up, or the last.
pub proof fn deleting_keeps_the_selection_in_the_list(
    a: AppView,
    v: VaultView,
    after: VaultView,
    i: usize,
)
    requires
        a.tab == Tab::Contacts,
        a.contact_mode == ContactMode::List || a.contact_mode == ContactMode::Fingerprint,
        a.selected == Some(i),
        i < v.payload.contacts.len() <= usize::MAX,
    ensures
        ({
            let b = key_app(a, v, plain(Key::Char('d')), after);
            let left = v.payload.contacts.len() - 1;
            &&& left == 0 ==> b.selected is None
            &&& i < left ==> b.selected == Some(i)
            &&& 0 < left == i ==> b.selected == Some((i - 1) as usize)
            &&& b.pending == a.pending
            &&& b.requests == a.requests
        }),
{
}

/// Verifying marks the selected contact and nobody else, and removes nobody.
pub proof fn verifying_marks_the_selected(
    a: AppView,
    v: VaultView,
    after: VaultView,
    e: Effects,
    i: usize,
)
    requires
        a.tab == Tab::Contacts,
        a.contact_mode == ContactMode::List || a.contact_mode == ContactMode::Fingerprint,
        a.selected == Some(i),
        i < v.payload.contacts.len(),
        key_outcome(a, v, plain(Key::Char('v')), after, e),
    ensures
        after.payload.contacts.len() == v.payload.contacts.len(),
        after.payload.contacts[i as int].verified,
        after.payload.contacts[i as int].bundle == v.payload.contacts[i as int].bundle,
        after.payload.contacts[i as int].display_name == v.payload.contacts[i as int].display_name,
        after.payload.contacts[i as int].id == v.payload.contacts[i as int].id,
        forall|j: int|
            0 <= j < v.payload.contacts.len() && j != i ==> #[trigger] after.payload.contacts[j]
                == v.payload.contacts[j],
        after.payload.conversations == v.payload.conversations,
        key_app(a, v, plain(Key::Char('v')), after).selected == a.selected,
        e.sent@.len() == 0,
{
}

/// The contact list changes under no key but those that are for it: `d` and `v`
/// in the list, Enter behind a code or a request, and the answers to an alert.
pub proof fn other_keys_leave_the_contacts_alone(
    a: AppView,
    v: VaultView,
    key: Key,
    after: VaultView,
    e: Effects,
)
    requires
        key_outcome(a, v, plain(key), after, e),
        a.contact_mode != ContactMode::KeyAlert,
        !(a.tab == Tab::Contacts && (key == Key::Char('d') || key == Key::Char('v'))),
        !(a.tab == Tab::Contacts && key == Key::Enter),
        !(a.tab == Tab::Conversation && key == Key::Enter),
        a.tab != Tab::Settings,
    ensures
        after == v,
        is_quiet(e),
{
}

/// The keys of the contact list lead where its help line says.
pub proof fn list_keys_lead_where_they_say(a: AppView, v: VaultView, after: VaultView)
    requires
        a.tab == Tab::Contacts,
        a.contact_mode == ContactMode::List || a.contact_mode == ContactMode::Fingerprint,
    ensures
        key_app(a, v, plain(Key::Char('a')), after).contact_mode == ContactMode::AddContact,
        key_app(a, v, plain(Key::Char('a')), after).add_buf.len() == 0,
        key_app(a, v, plain(Key::Char('e')), after).contact_mode == ContactMode::ExportCode,
        key_app(a, v, plain(Key::Enter), after).contact_mode == ContactMode::Fingerprint,
        key_app(a, v, plain(Key::Enter), after).selected == a.selected,
        key_app(a, v, plain(Key::Esc), after).contact_mode == ContactMode::List,
        key_app(a, v, plain(Key::Char('2')), after).tab == Tab::Conversation,
        key_app(a, v, plain(Key::Char('2')), after).active_contact == a.selected,
        key_app(a, v, plain(Key::Char('3')), after).tab == Tab::Settings,
        !key_app(a, v, plain(Key::Char('q')), after).running,
        forall|key: Key|
            key != Key::Char('q') ==> (#[trigger] key_app(a, v, plain(key), after)).running
                == a.running,
{
}

/// A contact code adds its contact at once: it stands at the end of the list,
/// not verified, with the bundle that the code holds, and is selected. The
/// others stay.
pub proof fn contact_codes_add_their_contact(
    a: AppView,
    v: VaultView,
    after: VaultView,
    e: Effects,
    bundle: BundleView,
)
    requires
        a.tab == Tab::Contacts,
        a.contact_mode == ContactMode::AddContact,
        !BOOTSTRAP_PREFIX@.is_prefix_of(
            crate::text::trim_start_spec(trim_spec(a.add_buf)),
        ),
        contact_read(trim_spec(a.add_buf)) == Ok::<BundleView, IdentityError>(bundle),
        v.payload.sequence < u64::MAX - 1,
        key_outcome(a, v, plain(Key::Enter), after, e),
    ensures
        after.payload.contacts.len() == v.payload.contacts.len() + 1,
        after.payload.contacts.last().bundle == bundle,
        !after.payload.contacts.last().verified,
        after.payload.contacts.last().display_name == contact_label(
            v.payload.contacts.len() + 1,
        ),
        forall|i: int|
            0 <= i < v.payload.contacts.len() ==> #[trigger] after.payload.contacts[i]
                == v.payload.contacts[i],
        after.payload.conversations == v.payload.conversations,
        key_app(a, v, plain(Key::Enter), after).selected == Some(
            v.payload.contacts.len() as usize,
        ),
        key_app(a, v, plain(Key::Enter), after).contact_mode == ContactMode::List,
        key_app(a, v, plain(Key::Enter), after).add_buf.len() == 0,
        key_app(a, v, plain(Key::Enter), after).requests == a.requests,
        e.sent@.len() == 0,
{
}

/// A bootstrap code asks its owner, at the address in the code and sealed to
/// the key in it, and leaves one more request waiting, for exactly the owner of
/// the code. No contact is added before the answer.
pub proof fn bootstrap_codes_ask_their_owner(
    a: AppView,
    v: VaultView,
    after: VaultView,
    e: Effects,
    code: BootstrapView,
)
    requires
        a.tab == Tab::Contacts,
        a.contact_mode == ContactMode::AddContact,
        BOOTSTRAP_PREFIX@.is_prefix_of(crate::text::trim_start_spec(trim_spec(a.add_buf))),
        bootstrap_read(trim_spec(a.add_buf)) == Ok::<BootstrapView, IdentityError>(code),
        key_outcome(a, v, plain(Key::Enter), after, e),
    ensures
        after == v,
        ({
            let b = key_app(a, v, plain(Key::Enter), after);
            &&& b.requests.len() == a.requests.len() + 1
            &&& b.requests.take(a.requests.len() as int) == a.requests
            &&& b.requests.last().ed25519_vk == code.ed25519_vk
            &&& b.requests.last().fingerprint == code.fingerprint
            &&& b.contact_mode == ContactMode::List
            &&& b.add_buf.len() == 0
            &&& b.pending == a.pending
        }),
        e.saved is None,
        v.payload.has_kem() && sealable(request_bytes(v.payload).len()) ==> e.sent@.len() == 1
            && e.sent@[0].to@ == code.nym_address && is_request(
            e.sent@[0].payload@,
            code.x25519_pub,
            v.payload,
        ),
{
    let b = key_app(a, v, plain(Key::Enter), after);
    assert(b.requests.take(a.requests.len() as int) =~= a.requests);
}

/// A code that cannot be read changes nothing but what the user is told.
pub proof fn bad_codes_change_nothing(a: AppView, v: VaultView, after: VaultView, e: Effects)
    requires
        a.tab == Tab::Contacts,
        a.contact_mode == ContactMode::AddContact,
        bootstrap_read(trim_spec(a.add_buf)) is Err,
        contact_read(trim_spec(a.add_buf)) is Err,
        key_outcome(a, v, plain(Key::Enter), after, e),
    ensures
        after == v,
        is_quiet(e),
        key_app(a, v, plain(Key::Enter), after).requests == a.requests,
        key_app(a, v, plain(Key::Enter), after).pending == a.pending,
        key_app(a, v, plain(Key::Enter), after).selected == a.selected,
{
}

/// An alert about a changed key stays until it is answered: accepting marks the
/// contact as verified, rejecting removes it, and every other key does nothing.
pub proof fn alerts_wait_for_an_answer(
    a: AppView,
    v: VaultView,
    key: Key,
    after: VaultView,
    e: Effects,
    i: usize,
)
    requires
        a.contact_mode == ContactMode::KeyAlert,
        a.selected == Some(i),
        i < v.payload.contacts.len(),
        key_outcome(a, v, plain(key), after, e),
    ensures
        ({
            let b = key_app(a, v, plain(key), after);
            let yes = key == Key::Char('v') || key == Key::Char('V');
            let no = key == Key::Char('r') || key == Key::Char('R');
            &&& yes ==> {
                &&& after.payload.contacts.len() == v.payload.contacts.len()
                &&& after.payload.contacts[i as int].verified
                &&& after.payload.contacts[i as int].bundle == v.payload.contacts[i as int].bundle
                &&& b.key_alert is None && b.contact_mode == ContactMode::List
            }
            &&& no ==> {
                &&& after.payload.contacts == v.payload.contacts.remove(i as int)
                &&& b.key_alert is None && b.contact_mode == ContactMode::List
            }
            &&& yes ==> forall|j: int|
                0 <= j < v.payload.contacts.len() && j != i ==> #[trigger] after.payload.contacts[j]
                    == v.payload.contacts[j]
            &&& !yes && !no ==> b == a && after == v && is_quiet(e)
        }),
{
}

/// Sending takes the draft to the letter: it goes out as its UTF-8 bytes to the
/// address of the contact whose conversation is open, and the field is empty
/// afterwards. What cannot be sent leaves the vault alone.
pub proof fn sending_takes_the_draft(a: AppView, v: VaultView, after: VaultView, e: Effects)
    requires
        a.tab == Tab::Conversation,
        a.contact_mode != ContactMode::KeyAlert,
        !a.search_active,
        a.draft.len() > 0,
        key_outcome(a, v, plain(Key::Enter), after, e),
    ensures
        ({
            let b = key_app(a, v, plain(Key::Enter), after);
            let whom = if a.active_contact is Some {
                a.active_contact
            } else {
                a.selected
            };
            &&& b.draft.len() == 0
            &&& b.tab == a.tab
            &&& b.messages == a.messages
            &&& e.saved is None && e.sent@.len() == 0
            &&& send_error(v, whom, encode_utf8(a.draft).len()) is None ==> {
                let c = v.payload.contacts[whom->0 as int];
                &&& e.message matches Some(d)
                &&& d.contact_id@ == c.id
                &&& d.plaintext@ == encode_utf8(a.draft)
                &&& d.outgoing.to@ == c.bundle.nym_address
                &&& composed(v, after, c, encode_utf8(a.draft), d.outgoing.payload@)
            }
            &&& send_error(v, whom, encode_utf8(a.draft).len()) matches Some(why) ==> {
                &&& e.message is None
                &&& after == v
                &&& b.status == why.text_spec()
            }
        }),
{
}

/// An empty draft is not sent, and Esc drops a draft before it leaves the
/// conversation.
pub proof fn drafts_are_dropped_before_leaving(
    a: AppView,
    v: VaultView,
    after: VaultView,
    e: Effects,
)
    requires
        a.tab == Tab::Conversation,
        a.contact_mode != ContactMode::KeyAlert,
        !a.search_active,
    ensures
        a.draft.len() == 0 ==> key_app(a, v, plain(Key::Enter), after) == a,
        a.draft.len() == 0 && key_outcome(a, v, plain(Key::Enter), after, e) ==> after == v
            && is_quiet(e),
        a.draft.len() > 0 ==> key_app(a, v, plain(Key::Esc), after) == (AppView {
            draft: key_app(a, v, plain(Key::Esc), after).draft,
            ..a
        }) && key_app(a, v, plain(Key::Esc), after).draft.len() == 0,
        a.draft.len() == 0 ==> key_app(a, v, plain(Key::Esc), after).tab == Tab::Contacts,
        a.draft.len() == 0 ==> key_app(a, v, plain(Key::Tab), after).tab == Tab::Settings,
        a.draft.len() > 0 ==> key_app(a, v, plain(Key::Tab), after) == a,
{
}

/// Once the transport has taken a message, it stands in the log behind the
/// others as ours, to the letter; every other conversation stays.
pub proof fn sent_messages_are_logged(
    a: AppView,
    v: VaultView,
    id: Seq<u8>,
    t: Seq<char>,
    after: VaultView,
    other: Seq<u8>,
)
    requires
        is_harmless(t),
        other != id,
        v.payload.sequence < u64::MAX,
        sent_vault(v, id, encode_utf8(t), after),
    ensures
        ({
            let log = v.messages(id);
            let shown = sent_app(a, v, id, encode_utf8(t)).messages;
            &&& shown.len() == log.len() + 1
            &&& shown.take(log.len() as int) == log
            &&& shown.last().content == t
            &&& shown.last().from_us
            &&& sealable(crate::codec::put_list_spec::<StoredMessage>(shown).len())
                ==> after.messages(id) == shown
        }),
        after.messages(other) == v.messages(other),
        after.session(other) == v.session(other),
        after.session(id) == v.session(id),
        after.payload.contacts == v.payload.contacts,
        after.payload.sequence == v.payload.sequence + 1,
{
    messages_are_kept_to_the_letter(t);
    let log = v.messages(id);
    let shown = logged(log, t, true);
    assert(shown.take(log.len() as int) =~= log);
    let talk = after.at(v.payload.sequence);
    other_conversations_are_kept(v, talk, id, other);
}

/// A search counts the messages that hold what is searched for, in whatever
/// case: exactly as many as a filter by it leaves.
pub proof fn searches_count_what_they_find(messages: Seq<StoredMessageView>, query: Seq<char>)
    ensures
        match_count(messages, query) == messages.filter(
            |m: StoredMessageView| has_part(lower(m.content), lower(query)),
        ).len(),
    decreases messages.len(),
{
    reveal(Seq::filter);
    if messages.len() > 0 {
        searches_count_what_they_find(messages.drop_last(), query);
    }
}

/// A text holds every part of itself.
pub proof fn parts_are_held(front: Seq<char>, p: Seq<char>, back: Seq<char>)
    ensures
        has_part(front + p + back, p),
{
    let s = front + p + back;
    assert(s.subrange(front.len() as int, (front.len() + p.len()) as int) =~= p);
    assert(part_at(s, p, front.len() as int));
}

/// A search hides no message and ends with Esc.
pub proof fn searches_end_with_escape(a: AppView, v: VaultView, after: VaultView)
    requires
        a.tab == Tab::Conversation,
        a.contact_mode != ContactMode::KeyAlert,
        a.search_active,
    ensures
        !key_app(a, v, plain(Key::Esc), after).search_active,
        key_app(a, v, plain(Key::Esc), after).search_query.len() == 0,
        key_app(a, v, plain(Key::Esc), after).draft == a.draft,
        forall|key: Key|
            (#[trigger] key_app(a, v, plain(key), after)).messages == a.messages,
        key_app(a, v, plain(Key::Enter), after) == a,
{
}

/// The conversation on screen is that of the contact the user is in, in full,
/// and it counts as read; the other conversations stay as they were.
pub proof fn open_conversations_are_read(
    a: AppView,
    v: VaultView,
    after: VaultView,
    saved: Option<SavedVault>,
    i: usize,
    other: Seq<u8>,
)
    requires
        a.active_contact == Some(i) || (a.active_contact is None && a.selected == Some(i)),
        i < v.payload.contacts.len(),
        a.loaded_contact != Some(i),
        v.payload.sequence < u64::MAX,
        other != v.payload.contacts[i as int].id,
        refreshed_vault(a, v, after, saved),
    ensures
        refreshed_app(a, v).messages == v.messages(v.payload.contacts[i as int].id),
        refreshed_app(a, v).loaded_contact == Some(i),
        after.unread(v.payload.contacts[i as int].id) == 0,
        after.messages(v.payload.contacts[i as int].id) == v.messages(
            v.payload.contacts[i as int].id,
        ),
        after.session(v.payload.contacts[i as int].id) == v.session(
            v.payload.contacts[i as int].id,
        ),
        after.unread(other) == v.unread(other),
        after.messages(other) == v.messages(other),
        after.payload.contacts == v.payload.contacts,
{
    let id = v.payload.contacts[i as int].id;
    if v.unread(id) > 0 {
        let talk = after.at(v.payload.sequence);
        other_conversations_are_kept(v, talk, id, other);
    }
}

/// A confirmation is only ever given by `y`: with any other key neither a
/// rotation nor a revocation happens, and nothing goes out.
pub proof fn only_yes_confirms(a: AppView, v: VaultView, key: Key, after: VaultView, e: Effects)
    requires
        a.tab == Tab::Settings,
        a.contact_mode != ContactMode::KeyAlert,
        a.settings_edit_mode == SettingsEditMode::ConfirmRotate || a.settings_edit_mode
            == SettingsEditMode::ConfirmRevoke,
        key != Key::Char('y'),
        key != Key::Char('Y'),
        key_outcome(a, v, plain(key), after, e),
    ensures
        after == v,
        is_quiet(e),
        key_app(a, v, plain(key), after).settings_edit_mode == SettingsEditMode::Closed,
        key_app(a, v, plain(key), after).export_code == a.export_code,
{
}

/// A rotation that was confirmed puts new keys into the vault, announces them to
/// the contacts and shows the codes of the new keys; contacts, conversations and
/// settings stay.
pub proof fn confirmed_rotation_renews_the_keys(
    a: AppView,
    v: VaultView,
    after: VaultView,
    e: Effects,
)
    requires
        a.tab == Tab::Settings,
        a.contact_mode != ContactMode::KeyAlert,
        a.settings_edit_mode == SettingsEditMode::ConfirmRotate,
        v.payload.identity_kem_secret.len() == crate::crypto::keys::KEM_BYTES,
        v.payload.identity_signing_secret.len() == crate::crypto::keys::SIGNING_BYTES,
        v.payload.sequence < u64::MAX - 1,
        key_outcome(a, v, plain(Key::Char('y')), after, e),
    ensures
        ({
            let b = key_app(a, v, plain(Key::Char('y')), after);
            &&& b.export_code == export_text(after.payload)
            &&& b.bootstrap_code == bootstrap_text(after.payload)
            &&& b.settings_edit_mode == SettingsEditMode::Closed
            &&& after.payload.contacts == v.payload.contacts
            &&& after.payload.conversations == v.payload.conversations
            &&& after.payload.settings == v.payload.settings
            &&& after.payload.opk_secrets == v.payload.opk_secrets
            &&& after.payload.nym_address == v.payload.nym_address
            &&& after.payload.sequence == v.payload.sequence + 2
            &&& rekeyed(v.at(after.payload.sequence).payload, after.payload)
            &&& announces(
                outgoing_views(e.sent@),
                v,
                RevocationReason::Rotation,
                after.payload.our_bundle(),
            )
        }),
{
    let keyed = after.at((v.payload.sequence + 1) as u64);
    assert(keyed.payload.our_bundle() == after.payload.our_bundle());
}

/// A revocation that was confirmed is announced without new keys: ours stay as
/// they are, and so does everything else but the sequence.
pub proof fn confirmed_revocation_keeps_the_keys(
    a: AppView,
    v: VaultView,
    after: VaultView,
    e: Effects,
)
    requires
        a.tab == Tab::Settings,
        a.contact_mode != ContactMode::KeyAlert,
        a.settings_edit_mode == SettingsEditMode::ConfirmRevoke,
        v.payload.identity_kem_secret.len() == crate::crypto::keys::KEM_BYTES,
        v.payload.identity_signing_secret.len() == crate::crypto::keys::SIGNING_BYTES,
        v.payload.sequence < u64::MAX - 1,
        key_outcome(a, v, plain(Key::Char('y')), after, e),
    ensures
        after.payload.contacts == v.payload.contacts,
        after.payload.conversations == v.payload.conversations,
        after.payload.identity_kem_secret == v.payload.identity_kem_secret,
        after.payload.identity_signing_secret == v.payload.identity_signing_secret,
        after.payload.sequence == v.payload.sequence + 2,
        announces(outgoing_views(e.sent@), v, RevocationReason::Retirement, None),
{
}

/// The edit fields of the settings keep what was typed, without the white space
/// round it: the address as it is, if there is one, and the threshold as the
/// number that it is. The other settings and the contacts stay, and Esc changes
/// nothing.
pub proof fn edited_settings_are_kept(a: AppView, v: VaultView, after: VaultView, e: Effects)
    requires
        a.tab == Tab::Settings,
        a.contact_mode != ContactMode::KeyAlert,
        a.settings_edit_mode == SettingsEditMode::EditTorAddr || a.settings_edit_mode
            == SettingsEditMode::EditAutoDelete,
    ensures
        key_outcome(a, v, plain(Key::Esc), after, e) ==> after == v && is_quiet(e),
        key_outcome(a, v, plain(Key::Enter), after, e) ==> {
            let s = after.payload.settings;
            let o = v.payload.settings;
            &&& after.payload.contacts == v.payload.contacts
            &&& after.payload.conversations == v.payload.conversations
            &&& after.payload.identity_kem_secret == v.payload.identity_kem_secret
            &&& e.sent@.len() == 0
            &&& s.nym_gateway == o.nym_gateway
            &&& a.settings_edit_mode == SettingsEditMode::EditTorAddr ==> {
                &&& s.default_auto_delete == o.default_auto_delete
                &&& trim_spec(a.settings_edit_buf).len() > 0 ==> s.tor_socks_addr == trim_spec(
                    a.settings_edit_buf,
                )
                &&& trim_spec(a.settings_edit_buf).len() == 0 ==> after == v
            }
            &&& a.settings_edit_mode == SettingsEditMode::EditAutoDelete ==> {
                &&& s.tor_socks_addr == o.tor_socks_addr
                &&& s.default_auto_delete == threshold_in(a.settings_edit_buf)
            }
        },
        key_app(a, v, plain(Key::Enter), after).settings_edit_mode == SettingsEditMode::Closed,
        key_app(a, v, plain(Key::Esc), after).settings_edit_mode == SettingsEditMode::Closed,
{
}

/// A threshold that was typed as a number is that number, and a blank field
/// means that there is none.
pub proof fn typed_thresholds_are_read(n: u32, blank: Seq<char>)
    requires
        forall|i: int| 0 <= i < blank.len() ==> is_space(#[trigger] blank[i]),
    ensures
        threshold_in(decimal(n as nat)) == Some(n),
        threshold_in(blank) is None,
{
    let d = decimal(n as nat);
    decimal_is_read_back(n as nat);
    assert(is_digit(d[0]));
    assert(is_digit(d[d.len() - 1]));
    trim_is_exact(d);
    trim_is_exact(blank);
    if trim_spec(blank).len() > 0 {
        let (i, j) = choose|i: int, j: int|
            {
                &&& 0 <= i <= j <= blank.len()
                &&& trim_spec(blank) == #[trigger] blank.subrange(i, j)
            };
        assert(trim_spec(blank)[0] == blank[i]);
    }
    assert(trim_spec(d) == d) by {
        assert(!is_space(d[0]) && !is_space(d[d.len() - 1]));
    }
}

/// The entries of the settings list open what they are for, and choosing one
/// changes nothing in the vault; only the last asks Tor for new circuits.
pub proof fn settings_entries_open_what_they_are_for(
    a: AppView,
    v: VaultView,
    after: VaultView,
    e: Effects,
    i: usize,
)
    requires
        a.tab == Tab::Settings,
        a.contact_mode != ContactMode::KeyAlert,
        a.settings_edit_mode == SettingsEditMode::Closed,
        a.settings_selected == Some(i),
        i < NUM_SETTINGS,
        key_outcome(a, v, plain(Key::Enter), after, e),
    ensures
        after == v,
        e.saved is None && e.sent@.len() == 0 && e.message is None,
        e.new_circuit == (crate::ui::settings::item_at(i as int) == Some(
            crate::ui::settings::SettingsItem::RefreshCircuit,
        )),
        ({
            let b = key_app(a, v, plain(Key::Enter), after);
            match crate::ui::settings::item_at(i as int)->0 {
                crate::ui::settings::SettingsItem::TorAddress => b.settings_edit_mode
                    == SettingsEditMode::EditTorAddr && b.settings_edit_buf
                    == v.payload.settings.tor_socks_addr,
                crate::ui::settings::SettingsItem::NymGateway => b == a,
                crate::ui::settings::SettingsItem::AutoDelete => b.settings_edit_mode
                    == SettingsEditMode::EditAutoDelete && threshold_in(b.settings_edit_buf)
                    == v.payload.settings.default_auto_delete,
                crate::ui::settings::SettingsItem::RotateKey => b.settings_edit_mode
                    == SettingsEditMode::ConfirmRotate,
                crate::ui::settings::SettingsItem::RevokeKey => b.settings_edit_mode
                    == SettingsEditMode::ConfirmRevoke,
                crate::ui::settings::SettingsItem::ExportContactCode => b.tab == Tab::Contacts
                    && b.contact_mode == ContactMode::ExportCode,
                crate::ui::settings::SettingsItem::RefreshCircuit => b.settings_edit_mode
                    == SettingsEditMode::Closed,
            }
        }),
{
    match v.payload.settings.default_auto_delete {
        Some(n) => {
            typed_thresholds_are_read(n, seq![]);
        },
        None => {
            typed_thresholds_are_read(0, seq![]);
        },
    }
}

/// The arrows move through the settings list by one, round its ends.
pub proof fn arrows_move_through_the_settings(a: AppView, v: VaultView, after: VaultView, i: usize)
    requires
        a.tab == Tab::Settings,
        a.contact_mode != ContactMode::KeyAlert,
        a.settings_edit_mode == SettingsEditMode::Closed,
        a.settings_selected == Some(i),
        i < NUM_SETTINGS,
    ensures
        ({
            let down = key_app(a, v, plain(Key::Down), after);
            let up = key_app(a, v, plain(Key::Up), after);
            &&& i + 1 < NUM_SETTINGS ==> down.settings_selected == Some((i + 1) as usize)
            &&& i + 1 == NUM_SETTINGS ==> down.settings_selected == Some(0usize)
            &&& i > 0 ==> up.settings_selected == Some((i - 1) as usize)
            &&& i == 0 ==> up.settings_selected == Some((NUM_SETTINGS - 1) as usize)
            &&& down == (AppView { settings_selected: down.settings_selected, ..a })
            &&& up == (AppView { settings_selected: up.settings_selected, ..a })
            &&& key_app(a, v, plain(Key::Char('1')), after).tab == Tab::Contacts
            &&& key_app(a, v, plain(Key::Char('2')), after).tab == Tab::Conversation
            &&& !key_app(a, v, plain(Key::Char('q')), after).running
        }),
{
}

/// Cover traffic, acknowledgements and what cannot be read leave no trace.
pub proof fn cover_traffic_leaves_no_trace(
    a: AppView,
    v: VaultView,
    w: Option<WireView>,
    after_app: AppView,
    after: VaultView,
    e: Effects,
)
    requires
        incoming_outcome(a, v, w, after_app, after, e),
        w is None || w->0.msg_type == WireMessageType::Dummy || w->0.msg_type
            == WireMessageType::Loop || w->0.msg_type == WireMessageType::Ack,
    ensures
        after_app == a,
        after == v,
        is_quiet(e),
{
}

/// A first message from somebody unknown waits for the user: it is last in the
/// queue, with what was written and who wrote it, and no contact is added.
pub proof fn strangers_wait_for_the_user(
    a: AppView,
    v: VaultView,
    w: WireView,
    after_app: AppView,
    after: VaultView,
    e: Effects,
    h: OpenedView,
)
    requires
        w.msg_type == WireMessageType::Handshake,
        incoming_outcome(a, v, Some(w), after_app, after, e),
        handshake_opened(v.payload, w.ciphertext) == Some(h),
        forall|i: int|
            0 <= i < v.payload.contacts.len() ==> (
            #[trigger] v.payload.contacts[i]).bundle.ed25519_vk != h.bundle.ed25519_vk,
        a.pending.len() <= MAX_PENDING_HANDSHAKES,
    ensures
        after_app.pending.len() > 0,
        after_app.pending.last() == h,
        a.pending.len() < MAX_PENDING_HANDSHAKES ==> after_app.pending.len() == a.pending.len() + 1
            && after_app.pending.take(a.pending.len() as int) == a.pending,
        after.payload.contacts == v.payload.contacts,
        after.payload.conversations == v.payload.conversations,
        after_app.messages == a.messages,
        e.sent@.len() == 0,
{
    sender_is_found(v.payload.contacts, h.bundle.ed25519_vk);
    assert(queued(a.pending, h).take(a.pending.len() as int) =~= (if a.pending.len()
        < MAX_PENDING_HANDSHAKES {
        a.pending
    } else {
        queued(a.pending, h).take(a.pending.len() as int)
    }));
}

/// A first message from a contact is taken in at once: its text is logged behind
/// what stands there, its session starts over under the key of the handshake,
/// and no request waits. The other conversations and the contacts stay.
pub proof fn contacts_are_taken_in_at_once(
    a: AppView,
    v: VaultView,
    w: WireView,
    after_app: AppView,
    after: VaultView,
    e: Effects,
    h: OpenedView,
    i: int,
    t: Seq<char>,
    other: Seq<u8>,
)
    requires
        w.msg_type == WireMessageType::Handshake,
        incoming_outcome(a, v, Some(w), after_app, after, e),
        handshake_opened(v.payload, w.ciphertext) == Some(h),
        0 <= i < v.payload.contacts.len(),
        v.payload.contacts[i].bundle.ed25519_vk == h.bundle.ed25519_vk,
        forall|j: int|
            0 <= j < i ==> (#[trigger] v.payload.contacts[j]).bundle.ed25519_vk
                != h.bundle.ed25519_vk,
        h.plaintext == encode_utf8(t),
        is_harmless(t),
        other != v.payload.contacts[i].id,
        v.payload.sequence < u64::MAX,
    ensures
        ({
            let id = v.payload.contacts[i].id;
            let log = v.messages(id);
            &&& after_app.pending == a.pending
            &&& after.payload.contacts == v.payload.contacts
            &&& after.session(id) == Some(
                bob_start(h.session_key, v.payload.ratchet_secret()->0),
            )
            &&& sealable(
                crate::codec::put_list_spec::<StoredMessage>(logged(log, t, false)).len(),
            ) ==> after.messages(id) == logged(log, t, false)
            &&& a.on_screen(v) == Some(id) ==> after_app.messages == logged(log, t, false)
            &&& a.on_screen(v) != Some(id) ==> after_app.messages == a.messages && after.unread(id)
                == v.unread(id) + 1
            &&& after.messages(other) == v.messages(other)
            &&& after.session(other) == v.session(other)
        }),
{
    sender_is_found(v.payload.contacts, h.bundle.ed25519_vk);
    messages_are_kept_to_the_letter(t);
    let id = v.payload.contacts[i].id;
    let spent = prekey_spent(v, h.used_opk);
    let talk = after.at(v.payload.sequence);
    assert(spent.messages(id) == v.messages(id));
    assert(spent.unread(id) == v.unread(id));
    assert(spent.messages(other) == v.messages(other));
    assert(spent.session(other) == v.session(other));
    other_conversations_are_kept(spent, talk, id, other);
}

/// A data message shows at once where its conversation is on screen, and
/// nowhere else; what comes in never adds or removes a contact.
pub proof fn data_messages_show_where_they_belong(
    a: AppView,
    v: VaultView,
    w: WireView,
    after_app: AppView,
    after: VaultView,
    e: Effects,
)
    requires
        w.msg_type == WireMessageType::Data,
        v.payload.sequence < u64::MAX,
        incoming_outcome(a, v, Some(w), after_app, after, e),
    ensures
        after.payload.contacts == v.payload.contacts,
        after_app.pending == a.pending,
        after_app.selected == a.selected,
        after_app.tab == a.tab,
        e.sent@.len() == 0,
        after_app.messages != a.messages ==> a.on_screen(v) is Some && after_app.messages.len()
            == v.messages(a.on_screen(v)->0).len() + 1 && after_app.messages.take(
            v.messages(a.on_screen(v)->0).len() as int,
        ) == v.messages(a.on_screen(v)->0),
{
    let outcome = choose|outcome: DataOutcome|
        #[trigger] data_outcome(
            a,
            v,
            w.header,
            w.ciphertext,
            w.mac,
            after_app,
            after,
            e,
            outcome,
        );
    if let DataOutcome::Received(who, messages) = outcome {
        let talk = after.at(v.payload.sequence);
        let ct = crate::network::message::sized_part(w.ciphertext)->0;
        crate::messenger::laws::receiving_touches_one_conversation(
            v,
            talk,
            w.header,
            ct,
            w.mac,
            a.on_screen(v),
            outcome,
            who,
            messages,
            who@.push(0),
        );
    }
}

/// A rotation of a contact's keys raises the alert, names the contact and shows
/// the new fingerprint; a retirement is told. Both act on the one contact.
#[verifier::rlimit(50)]
pub proof fn revocations_alert_the_user(
    a: AppView,
    v: VaultView,
    w: WireView,
    after_app: AppView,
    after: VaultView,
    e: Effects,
    cert: RevocationView,
    i: int,
)
    requires
        w.msg_type == WireMessageType::Revocation,
        incoming_outcome(a, v, Some(w), after_app, after, e),
        <RevocationCertificate as crate::codec::Record>::take_spec(w.ciphertext) matches Some((c, _))
            && c == cert,
        0 <= i < v.payload.contacts.len(),
        v.payload.contacts[i].bundle.x25519_pub == cert.x25519_pub,
        forall|j: int|
            0 <= j < i ==> (#[trigger] v.payload.contacts[j]).bundle.x25519_pub
                != cert.x25519_pub,
        cert.signed_by(v.payload.contacts[i].bundle),
    ensures
        match cert.new_bundle {
            Some(b) => {
                &&& after_app.key_alert == Some(
                    (v.payload.contacts[i].display_name, b.fingerprint()),
                )
                &&& after_app.contact_mode == ContactMode::KeyAlert
                &&& after.payload.contacts.len() == v.payload.contacts.len()
                &&& after.payload.contacts[i].bundle == b
                &&& !after.payload.contacts[i].verified
                &&& forall|j: int|
                    0 <= j < v.payload.contacts.len() && j != i ==> #[trigger] after.payload.contacts[j]
                        == v.payload.contacts[j]
            },
            None => {
                &&& after_app.key_alert == a.key_alert
                &&& after.payload.contacts == v.payload.contacts.remove(i)
                &&& has_part(after_app.status, v.payload.contacts[i].display_name)
            },
        },
        after.payload.conversations == v.payload.conversations,
        after_app.pending == a.pending,
        e.sent@.len() == 0,
{
    owner_is_found(v.payload.contacts, cert.x25519_pub);
    let name = v.payload.contacts[i].display_name;
    parts_are_held(
        "Contact '"@,
        name,
        "' has revoked their key with no replacement. They have been removed from your contact list."@,
    );
}

/// Whoever asks for our bundle with a request that is sealed to us gets it, one
/// answer at the address in the request, sealed to the key in the request. The
/// contact list has no say in it, and nothing here changes.
pub proof fn requests_for_our_bundle_are_answered(
    a: AppView,
    v: VaultView,
    w: WireView,
    after_app: AppView,
    after: VaultView,
    e: Effects,
    address: Seq<char>,
    key: Seq<u8>,
)
    requires
        w.msg_type == WireMessageType::BundleRequest,
        incoming_outcome(a, v, Some(w), after_app, after, e),
        v.payload.our_bundle() is Some,
        sealable(v.payload.our_bundle()->0.bytes().len()),
        address.len() > 0,
        <RequestRecord as Record>::fits((address, key)),
        sealed_to(
            w.ciphertext,
            x25519_base(v.payload.x25519_secret()),
            "op4-bundle-req-v1".spec_bytes(),
            <RequestRecord as Record>::put_spec((address, key)),
        ),
    ensures
        e.sent@.len() == 1,
        e.sent@[0].to@ == address,
        is_answer(e.sent@[0].payload@, key, v.payload.our_bundle()->0),
        after_app == a,
        after == v,
        e.saved is None,
{
    let secret = v.payload.x25519_secret();
    let inner = <RequestRecord as Record>::put_spec((address, key));
    assert(secret.len() == 32);
    assert(unsealed(secret, w.ciphertext, "op4-bundle-req-v1".spec_bytes()) == Some(inner));
    <RequestRecord as Record>::round_trip((address, key), seq![]);
    assert(inner + seq![] =~= inner);
}

/// What is not sealed to us gets no answer.
pub proof fn foreign_requests_get_no_answer(
    a: AppView,
    v: VaultView,
    w: WireView,
    after_app: AppView,
    after: VaultView,
    e: Effects,
)
    requires
        w.msg_type == WireMessageType::BundleRequest,
        incoming_outcome(a, v, Some(w), after_app, after, e),
        unsealed(
            v.payload.x25519_secret(),
            w.ciphertext,
            "op4-bundle-req-v1".spec_bytes(),
        ) is None,
    ensures
        e.sent@.len() == 0,
        after_app == a,
        after == v,
{
}

/// An answer to a request of ours adds the contact with the bundle in it, and
/// that request is done while the others wait on. One that nobody asked for
/// leaves no trace.
pub proof fn answers_add_their_contact(
    a: AppView,
    v: VaultView,
    w: WireView,
    after_app: AppView,
    after: VaultView,
    e: Effects,
)
    requires
        w.msg_type == WireMessageType::BundleResponse,
        v.payload.sequence < u64::MAX - 1,
        incoming_outcome(a, v, Some(w), after_app, after, e),
    ensures
        match accepted_answer(v.payload, a.requests, w.ciphertext) {
            Some((i, bundle)) => {
                &&& after.payload.contacts.len() == v.payload.contacts.len() + 1
                &&& after.payload.contacts.last().bundle == bundle
                &&& !after.payload.contacts.last().verified
                &&& forall|j: int|
                    0 <= j < v.payload.contacts.len() ==> #[trigger] after.payload.contacts[j]
                        == v.payload.contacts[j]
                &&& after_app.requests.len() == a.requests.len() - 1
                &&& forall|j: int|
                    0 <= j < i ==> after_app.requests[j] == #[trigger] a.requests[j]
                &&& forall|j: int|
                    i < j < a.requests.len() ==> after_app.requests[j - 1] == #[trigger] a.requests[j]
                &&& after_app.selected == Some(v.payload.contacts.len() as usize)
            },
            None => after_app == a && after == v && is_quiet(e),
        },
        after_app.pending == a.pending,
        after.payload.conversations == v.payload.conversations,
        e.sent@.len() == 0,
{
    if let Some((i, bundle)) = accepted_answer(v.payload, a.requests, w.ciphertext) {
        crate::messenger::laws::answered_request_is_found(a.requests, bundle);
    }
}

} // verus!
