//! What keys do in the conversation tab.
use crate::codec::models;
use crate::messenger::incoming::{message_text, text_of_message};
use crate::messenger::outgoing::{compose_message, composed, send_error};
use crate::messenger::sessions::{log_message, log_set, logged, only_talk_changed};
use crate::storage::records::{StoredMessage, StoredMessageView};
use crate::storage::vault::{SavedVault, VaultUnlocked, VaultView};
use crate::text;
use crate::text::{decimal, has_part, lower};
use crate::bytes;
use crate::ui::contact_keys::backspaced;
use crate::ui::state::{
    contacts_help, help_text, saves, try_save, AppState, AppView, Draft, Effects, Key, Tab,
};
use vstd::prelude::*;
use vstd::utf8::encode_utf8;

verus! {

/// Whether a message matches a search: its text holds the query, whatever the
/// case.
pub open spec fn matches_query(m: StoredMessageView, query: Seq<char>) -> bool {
    has_part(lower(m.content), lower(query))
}

/// How many messages match a search.
pub open spec fn match_count(messages: Seq<StoredMessageView>, query: Seq<char>) -> nat
    decreases messages.len(),
{
    if messages.len() == 0 {
        0
    } else {
        match_count(messages.drop_last(), query) + (if matches_query(messages.last(), query) {
            1nat
        } else {
            0
        })
    }
}

/// Counts the messages that match a search.
pub fn count_matches(messages: &Vec<StoredMessage>, query: &str) -> (r: usize)
    ensures
        r == match_count(models(messages@), query@),
        r <= messages@.len(),
{
    let lowered = text::lower_case(query);
    let ghost all = models(messages@);
    let mut n: usize = 0;
    let mut i: usize = 0;
    while i < messages.len()
        invariant
            i <= messages@.len(),
            n <= i,
            all == models(messages@),
            lowered@ == lower(query@),
            n == match_count(all.take(i as int), query@),
        decreases messages@.len() - i,
    {
        assert(all.take(i + 1).drop_last() =~= all.take(i as int));
        assert(all.take(i + 1).last() == messages@[i as int]@);
        let content = text::lower_case(messages[i].content.as_str());
        if text::contains(content.as_str(), lowered.as_str()) {
            n = n + 1;
        }
        i = i + 1;
    }
    assert(all.take(i as int) =~= all);
    n
}

/// The status line of a search.
pub open spec fn search_status(query: Seq<char>, n: nat) -> Seq<char> {
    "Search: \""@ + query + "\"  ("@ + decimal(n) + " match(es))  Esc:clear"@
}

/// Writes the status line of a search.
fn write_search_status(query: &str, n: usize) -> (r: String)
    ensures
        r@ == search_status(query@, n as nat),
{
    let front = text::joined3("Search: \"", query, "\"  (");
    text::joined3(front.as_str(), text::decimal_text(n as u64).as_str(), " match(es))  Esc:clear")
}

/// What a key makes of a search. It takes every key until Esc.
pub open spec fn search_app(a: AppView, key: Key) -> AppView {
    match key {
        Key::Esc => AppView {
            search_active: false,
            search_query: seq![],
            status: "Enter:send  Esc:back  Type to compose  /:search"@,
            ..a
        },
        Key::Backspace => {
            let query = backspaced(a.search_query);
            AppView {
                search_query: query,
                status: if query.len() == 0 {
                    "Search: (type to filter, Esc to clear)"@
                } else {
                    search_status(query, match_count(a.messages, query))
                },
                ..a
            }
        },
        Key::Char(c) => {
            let query = a.search_query.push(c);
            AppView {
                search_query: query,
                status: search_status(query, match_count(a.messages, query)),
                ..a
            }
        },
        _ => a,
    }
}

/// A key during a search.
fn handle_search_key(app: &mut AppState, key: Key)
    requires
        old(app)@.wf(),
    ensures
        final(app)@.wf(),
        final(app)@ == search_app(old(app)@, key),
{
    match key {
        Key::Esc => {
            app.search_active = false;
            app.search_query = String::new();
            app.status = "Enter:send  Esc:back  Type to compose  /:search".to_owned();
        },
        Key::Backspace => {
            app.search_query = text::without_last(app.search_query.as_str());
            let n = count_matches(&app.messages, app.search_query.as_str());
            app.status = if app.search_query.as_str().is_empty() {
                "Search: (type to filter, Esc to clear)".to_owned()
            } else {
                write_search_status(app.search_query.as_str(), n)
            };
        },
        Key::Char(c) => {
            app.search_query.push(c);
            let n = count_matches(&app.messages, app.search_query.as_str());
            app.status = write_search_status(app.search_query.as_str(), n);
        },
        _ => {},
    }
}

/// What sending the draft makes of the interface, before the transport has
/// answered.
pub open spec fn send_app(a: AppView, v: VaultView) -> AppView {
    let cleared = AppView { draft: seq![], ..a };
    match send_error(v, a.current_contact(), encode_utf8(a.draft).len()) {
        Some(e) => AppView { status: e.text_spec(), ..cleared },
        None => cleared,
    }
}

/// What sending the draft makes of the vault and hands to the transport.
pub open spec fn send_outcome(a: AppView, v: VaultView, after: VaultView, e: Effects) -> bool {
    let plaintext = encode_utf8(a.draft);
    &&& e.saved is None
    &&& e.sent@.len() == 0
    &&& !e.new_circuit
    &&& match send_error(v, a.current_contact(), plaintext.len()) {
        Some(_) => e.message is None && after == v,
        None => {
            let c = v.payload.contacts[a.current_contact()->0 as int];
            &&& e.message matches Some(d)
            &&& d.contact_id@ == c.id
            &&& d.plaintext@ == plaintext
            &&& d.outgoing.to@ == c.bundle.nym_address
            &&& composed(v, after, c, plaintext, d.outgoing.payload@)
        },
    }
}

/// Encrypts the draft for the contact on screen. The first message to a
/// contact performs the handshake; the others go through the ratchet.
pub fn send_message(app: &mut AppState, vault: &mut VaultUnlocked) -> (r: Effects)
    requires
        old(app)@.wf(),
    ensures
        final(app)@.wf(),
        final(app)@ == send_app(old(app)@, old(vault)@),
        send_outcome(old(app)@, old(vault)@, final(vault)@, r),
{
    let contact = app.current_contact();
    let plaintext = bytes::copied(app.draft.as_str().as_bytes());
    app.draft = String::new();
    let ghost before = vault@;
    let contact_id: [u8; 32] = match contact {
        Some(i) => if i < vault.payload.contacts.len() {
            assert(before.payload.contacts[i as int] == vault.payload.contacts@[i as int]@);
            vault.payload.contacts[i].id
        } else {
            [0u8;32]
        },
        None => [0u8;32],
    };
    match compose_message(vault, contact, &plaintext) {
        Ok(outgoing) => Effects {
            saved: None,
            sent: Vec::new(),
            message: Some(Draft { contact_id, plaintext, outgoing }),
            new_circuit: false,
        },
        Err(e) => {
            app.status = e.text();
            Effects::none()
        },
    }
}

/// What becomes of the interface once the transport has taken a message.
pub open spec fn sent_app(a: AppView, v: VaultView, contact_id: Seq<u8>, plaintext: Seq<u8>) -> AppView {
    AppView {
        messages: logged(v.messages(contact_id), message_text(plaintext), true),
        status: "Message sent."@,
        ..a
    }
}

/// What becomes of the vault once the transport has taken a message: it stands
/// in the log.
pub open spec fn sent_vault(
    v: VaultView,
    contact_id: Seq<u8>,
    plaintext: Seq<u8>,
    after: VaultView,
) -> bool {
    let talk = after.at(v.payload.sequence);
    &&& after == talk.next()
    &&& only_talk_changed(v, talk, contact_id)
    &&& log_set(v, talk, contact_id, logged(v.messages(contact_id), message_text(plaintext), true))
    &&& talk.session(contact_id) == v.session(contact_id)
    &&& talk.unread(contact_id) == v.unread(contact_id)
}

/// Completes a message of the user, once the transport has taken it, or
/// refused it for a reason.
pub fn finish_send(
    app: &mut AppState,
    vault: &mut VaultUnlocked,
    contact_id: &[u8; 32],
    plaintext: &[u8],
    refused: Option<String>,
) -> (r: Option<SavedVault>)
    requires
        old(app)@.wf(),
        old(vault)@.has_room(),
    ensures
        final(app)@.wf(),
        match refused {
            None => {
                &&& final(app)@ == sent_app(old(app)@, old(vault)@, contact_id@, plaintext@)
                &&& sent_vault(old(vault)@, contact_id@, plaintext@, final(vault)@)
                &&& saves(final(vault)@, r)
            },
            Some(why) => {
                &&& final(app)@ == (AppView { status: "Send failed: "@ + why@, ..old(app)@ })
                &&& final(vault)@ == old(vault)@
                &&& r is None
            },
        },
{
    match refused {
        None => {
            let messages = log_message(vault, contact_id, text_of_message(plaintext), true);
            let ghost talk = vault@;
            app.messages = messages;
            app.status = "Message sent.".to_owned();
            let saved = try_save(vault);
            assert(vault@.at(old(vault)@.payload.sequence) =~= talk);
            saved
        },
        Some(why) => {
            app.status = text::joined("Send failed: ", why.as_str());
            None
        },
    }
}

/// What a key makes of the interface in the conversation tab.
pub open spec fn conversation_app(a: AppView, v: VaultView, key: Key) -> AppView {
    if a.search_active {
        search_app(a, key)
    } else {
        match key {
            Key::Esc => if a.draft.len() == 0 {
                AppView { tab: Tab::Contacts, status: help_text(a.pending.len()), ..a }
            } else {
                AppView { draft: seq![], ..a }
            },
            Key::Enter => if a.draft.len() == 0 {
                a
            } else {
                send_app(a, v)
            },
            Key::Backspace => AppView { draft: backspaced(a.draft), ..a },
            Key::Char(c) => if c == '/' {
                AppView {
                    search_active: true,
                    search_query: seq![],
                    status: "Search: (type to filter, Esc to clear)"@,
                    ..a
                }
            } else {
                AppView { draft: a.draft.push(c), ..a }
            },
            Key::Tab => if a.draft.len() == 0 {
                AppView {
                    tab: Tab::Settings,
                    status: "↑↓:navigate  Enter:select  1:contacts  q:quit"@,
                    ..a
                }
            } else {
                a
            },
            _ => a,
        }
    }
}

/// What a key in the conversation tab makes of the vault, and what it sends.
pub open spec fn conversation_outcome(
    a: AppView,
    v: VaultView,
    key: Key,
    after: VaultView,
    e: Effects,
) -> bool {
    if !a.search_active && key == Key::Enter && a.draft.len() > 0 {
        send_outcome(a, v, after, e)
    } else {
        after == v && e.none_spec()
    }
}

/// A key in the conversation tab.
pub fn handle_conversation_key(app: &mut AppState, key: Key, vault: &mut VaultUnlocked) -> (r:
    Effects)
    requires
        old(app)@.wf(),
    ensures
        final(app)@.wf(),
        final(app)@ == conversation_app(old(app)@, old(vault)@, key),
        conversation_outcome(old(app)@, old(vault)@, key, final(vault)@, r),
{
    if app.search_active {
        handle_search_key(app, key);
        return Effects::none();
    }
    match key {
        Key::Esc => {
            if app.draft.as_str().is_empty() {
                app.tab = Tab::Contacts;
                app.status = contacts_help(app.pending_handshakes.len());
            } else {
                app.draft = String::new();
            }
            Effects::none()
        },
        Key::Enter => {
            if app.draft.as_str().is_empty() {
                Effects::none()
            } else {
                send_message(app, vault)
            }
        },
        Key::Backspace => {
            app.draft = text::without_last(app.draft.as_str());
            Effects::none()
        },
        Key::Char('/') => {
            app.search_active = true;
            app.search_query = String::new();
            app.status = "Search: (type to filter, Esc to clear)".to_owned();
            Effects::none()
        },
        Key::Char(c) => {
            app.draft.push(c);
            Effects::none()
        },
        Key::Tab => {
            if app.draft.as_str().is_empty() {
                app.tab = Tab::Settings;
                app.status = "↑↓:navigate  Enter:select  1:contacts  q:quit".to_owned();
            }
            Effects::none()
        },
        _ => Effects::none(),
    }
}

} // verus!
