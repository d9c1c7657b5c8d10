//! What the vault stores: settings, conversations, messages and the outbox.
use crate::codec::{
    list_fits, list_round_trip, models, put_list, put_list_spec, take_list, take_list_spec, Record,
};
use crate::identity::profile::{ContactView, StoredContact};
use vstd::prelude::*;

verus! {

/// A message that waits for its recipient to be reachable. It is encrypted
/// already, so that a retry does not advance the ratchet again.
#[derive(Debug, Clone)]
pub struct PendingOutbound {
    pub contact_id: [u8; 32],
    pub recipient_addr: String,
    /// The record of a wire message.
    pub wire_payload: Vec<u8>,
    pub retry_count: u32,
    /// Vault sequence when the entry was made.
    pub created_seq: u64,
}

/// What a [`PendingOutbound`] means.
#[verifier::ext_equal]
pub struct OutboundView {
    pub contact_id: Seq<u8>,
    pub recipient_addr: Seq<char>,
    pub wire_payload: Seq<u8>,
    pub retry_count: u32,
    pub created_seq: u64,
}

/// The fields of a [`PendingOutbound`], in the order of its record.
pub type OutboundRecord = ([u8; 32], (String, (Vec<u8>, (u32, u64))));

impl View for PendingOutbound {
    type V = OutboundView;

    open spec fn view(&self) -> OutboundView {
        OutboundView {
            contact_id: self.contact_id@,
            recipient_addr: self.recipient_addr@,
            wire_payload: self.wire_payload@,
            retry_count: self.retry_count,
            created_seq: self.created_seq,
        }
    }
}

impl OutboundView {
    /// The fields in the order of the record.
    pub open spec fn fields(self) -> <OutboundRecord as Record>::Model {
        (self.contact_id, (self.recipient_addr, (self.wire_payload, (self.retry_count, self.created_seq))))
    }
}

impl Record for PendingOutbound {
    type Model = OutboundView;

    open spec fn model(&self) -> OutboundView {
        self@
    }

    open spec fn put_spec(m: OutboundView) -> Seq<u8> {
        OutboundRecord::put_spec(m.fields())
    }

    open spec fn take_spec(b: Seq<u8>) -> Option<(OutboundView, Seq<u8>)> {
        match OutboundRecord::take_spec(b) {
            Some((f, rest)) => Some(
                (
                    OutboundView {
                        contact_id: f.0,
                        recipient_addr: f.1.0,
                        wire_payload: f.1.1.0,
                        retry_count: f.1.1.1.0,
                        created_seq: f.1.1.1.1,
                    },
                    rest,
                ),
            ),
            None => None,
        }
    }

    open spec fn fits(m: OutboundView) -> bool {
        OutboundRecord::fits(m.fields())
    }

    fn put(&self, out: &mut Vec<u8>) {
        self.contact_id.put(out);
        self.recipient_addr.put(out);
        self.wire_payload.put(out);
        self.retry_count.put(out);
        self.created_seq.put(out);
        assert(out@ =~= old(out)@ + Self::put_spec(self.model()));
    }

    fn take(b: &[u8]) -> (r: Option<(Self, &[u8])>) {
        match OutboundRecord::take(b) {
            Some((f, rest)) => {
                let (contact_id, (recipient_addr, (wire_payload, (retry_count, created_seq)))) = f;
                Some((PendingOutbound { contact_id, recipient_addr, wire_payload, retry_count, created_seq }, rest))
            },
            None => None,
        }
    }

    proof fn round_trip(m: OutboundView, rest: Seq<u8>) {
        OutboundRecord::round_trip(m.fields(), rest);
    }
}

/// A conversation with a contact.
#[derive(Debug, Clone)]
pub struct ConversationMeta {
    pub id: [u8; 32],
    pub contact_id: [u8; 32],
    /// The ratchet, encrypted under the key of the conversation.
    pub ratchet_state_ct: Vec<u8>,
    /// The messages, encrypted under the key of the conversation.
    pub message_log_ct: Vec<u8>,
    pub unread_count: u32,
    /// Keep this many messages; all of them where there is no number.
    pub auto_delete_after: Option<u32>,
}

/// What a [`ConversationMeta`] means.
#[verifier::ext_equal]
pub struct ConversationView {
    pub id: Seq<u8>,
    pub contact_id: Seq<u8>,
    pub ratchet_state_ct: Seq<u8>,
    pub message_log_ct: Seq<u8>,
    pub unread_count: u32,
    pub auto_delete_after: Option<u32>,
}

/// The fields of a [`ConversationMeta`], in the order of its record.
pub type ConversationRecord = ([u8; 32], ([u8; 32], (Vec<u8>, (Vec<u8>, (u32, Option<u32>)))));

impl View for ConversationMeta {
    type V = ConversationView;

    open spec fn view(&self) -> ConversationView {
        ConversationView {
            id: self.id@,
            contact_id: self.contact_id@,
            ratchet_state_ct: self.ratchet_state_ct@,
            message_log_ct: self.message_log_ct@,
            unread_count: self.unread_count,
            auto_delete_after: self.auto_delete_after.model(),
        }
    }
}

impl ConversationView {
    /// The fields in the order of the record.
    pub open spec fn fields(self) -> <ConversationRecord as Record>::Model {
        (self.id, (self.contact_id, (self.ratchet_state_ct, (self.message_log_ct, (self.unread_count, self.auto_delete_after)))))
    }
}

impl Record for ConversationMeta {
    type Model = ConversationView;

    open spec fn model(&self) -> ConversationView {
        self@
    }

    open spec fn put_spec(m: ConversationView) -> Seq<u8> {
        ConversationRecord::put_spec(m.fields())
    }

    open spec fn take_spec(b: Seq<u8>) -> Option<(ConversationView, Seq<u8>)> {
        match ConversationRecord::take_spec(b) {
            Some((f, rest)) => Some(
                (
                    ConversationView {
                        id: f.0,
                        contact_id: f.1.0,
                        ratchet_state_ct: f.1.1.0,
                        message_log_ct: f.1.1.1.0,
                        unread_count: f.1.1.1.1.0,
                        auto_delete_after: f.1.1.1.1.1,
                    },
                    rest,
                ),
            ),
            None => None,
        }
    }

    open spec fn fits(m: ConversationView) -> bool {
        ConversationRecord::fits(m.fields())
    }

    fn put(&self, out: &mut Vec<u8>) {
        self.id.put(out);
        self.contact_id.put(out);
        self.ratchet_state_ct.put(out);
        self.message_log_ct.put(out);
        self.unread_count.put(out);
        self.auto_delete_after.put(out);
        assert(out@ =~= old(out)@ + Self::put_spec(self.model()));
    }

    fn take(b: &[u8]) -> (r: Option<(Self, &[u8])>) {
        match ConversationRecord::take(b) {
            Some((f, rest)) => {
                let (id, (contact_id, (ratchet_state_ct, (message_log_ct, (unread_count, auto_delete_after))))) = f;
                Some((ConversationMeta { id, contact_id, ratchet_state_ct, message_log_ct, unread_count, auto_delete_after }, rest))
            },
            None => None,
        }
    }

    proof fn round_trip(m: ConversationView, rest: Seq<u8>) {
        ConversationRecord::round_trip(m.fields(), rest);
    }
}

/// A message in the log of a conversation.
#[derive(Debug, Clone)]
pub struct StoredMessage {
    /// Monotonic, not a time.
    pub counter: u64,
    pub content: String,
    pub from_us: bool,
}

/// What a [`StoredMessage`] means.
#[verifier::ext_equal]
pub struct StoredMessageView {
    pub counter: u64,
    pub content: Seq<char>,
    pub from_us: bool,
}

/// The fields of a [`StoredMessage`], in the order of its record.
pub type StoredMessageRecord = (u64, (String, bool));

impl View for StoredMessage {
    type V = StoredMessageView;

    open spec fn view(&self) -> StoredMessageView {
        StoredMessageView {
            counter: self.counter,
            content: self.content@,
            from_us: self.from_us,
        }
    }
}

impl StoredMessageView {
    /// The fields in the order of the record.
    pub open spec fn fields(self) -> <StoredMessageRecord as Record>::Model {
        (self.counter, (self.content, self.from_us))
    }
}

impl Record for StoredMessage {
    type Model = StoredMessageView;

    open spec fn model(&self) -> StoredMessageView {
        self@
    }

    open spec fn put_spec(m: StoredMessageView) -> Seq<u8> {
        StoredMessageRecord::put_spec(m.fields())
    }

    open spec fn take_spec(b: Seq<u8>) -> Option<(StoredMessageView, Seq<u8>)> {
        match StoredMessageRecord::take_spec(b) {
            Some((f, rest)) => Some(
                (
                    StoredMessageView {
                        counter: f.0,
                        content: f.1.0,
                        from_us: f.1.1,
                    },
                    rest,
                ),
            ),
            None => None,
        }
    }

    open spec fn fits(m: StoredMessageView) -> bool {
        StoredMessageRecord::fits(m.fields())
    }

    fn put(&self, out: &mut Vec<u8>) {
        self.counter.put(out);
        self.content.put(out);
        self.from_us.put(out);
        assert(out@ =~= old(out)@ + Self::put_spec(self.model()));
    }

    fn take(b: &[u8]) -> (r: Option<(Self, &[u8])>) {
        match StoredMessageRecord::take(b) {
            Some((f, rest)) => {
                let (counter, (content, from_us)) = f;
                Some((StoredMessage { counter, content, from_us }, rest))
            },
            None => None,
        }
    }

    proof fn round_trip(m: StoredMessageView, rest: Seq<u8>) {
        StoredMessageRecord::round_trip(m.fields(), rest);
    }
}

/// The settings of the program.
#[derive(Debug, Clone)]
pub struct AppSettings {
    pub tor_socks_addr: String,
    pub nym_gateway: Option<String>,
    pub default_auto_delete: Option<u32>,
}

/// What a [`AppSettings`] means.
#[verifier::ext_equal]
pub struct SettingsView {
    pub tor_socks_addr: Seq<char>,
    pub nym_gateway: Option<Seq<char>>,
    pub default_auto_delete: Option<u32>,
}

/// The fields of a [`AppSettings`], in the order of its record.
pub type SettingsRecord = (String, (Option<String>, Option<u32>));

impl View for AppSettings {
    type V = SettingsView;

    open spec fn view(&self) -> SettingsView {
        SettingsView {
            tor_socks_addr: self.tor_socks_addr@,
            nym_gateway: self.nym_gateway.model(),
            default_auto_delete: self.default_auto_delete.model(),
        }
    }
}

impl SettingsView {
    /// The fields in the order of the record.
    pub open spec fn fields(self) -> <SettingsRecord as Record>::Model {
        (self.tor_socks_addr, (self.nym_gateway, self.default_auto_delete))
    }
}

impl Record for AppSettings {
    type Model = SettingsView;

    open spec fn model(&self) -> SettingsView {
        self@
    }

    open spec fn put_spec(m: SettingsView) -> Seq<u8> {
        SettingsRecord::put_spec(m.fields())
    }

    open spec fn take_spec(b: Seq<u8>) -> Option<(SettingsView, Seq<u8>)> {
        match SettingsRecord::take_spec(b) {
            Some((f, rest)) => Some(
                (
                    SettingsView {
                        tor_socks_addr: f.0,
                        nym_gateway: f.1.0,
                        default_auto_delete: f.1.1,
                    },
                    rest,
                ),
            ),
            None => None,
        }
    }

    open spec fn fits(m: SettingsView) -> bool {
        SettingsRecord::fits(m.fields())
    }

    fn put(&self, out: &mut Vec<u8>) {
        self.tor_socks_addr.put(out);
        self.nym_gateway.put(out);
        self.default_auto_delete.put(out);
        assert(out@ =~= old(out)@ + Self::put_spec(self.model()));
    }

    fn take(b: &[u8]) -> (r: Option<(Self, &[u8])>) {
        match SettingsRecord::take(b) {
            Some((f, rest)) => {
                let (tor_socks_addr, (nym_gateway, default_auto_delete)) = f;
                Some((AppSettings { tor_socks_addr, nym_gateway, default_auto_delete }, rest))
            },
            None => None,
        }
    }

    proof fn round_trip(m: SettingsView, rest: Seq<u8>) {
        SettingsRecord::round_trip(m.fields(), rest);
    }
}

impl Record for Vec<StoredContact> {
    type Model = Seq<ContactView>;

    open spec fn model(&self) -> Seq<ContactView> {
        models(self@)
    }

    open spec fn put_spec(m: Seq<ContactView>) -> Seq<u8> {
        put_list_spec::<StoredContact>(m)
    }

    open spec fn take_spec(b: Seq<u8>) -> Option<(Seq<ContactView>, Seq<u8>)> {
        take_list_spec::<StoredContact>(b)
    }

    open spec fn fits(m: Seq<ContactView>) -> bool {
        list_fits::<StoredContact>(m)
    }

    fn put(&self, out: &mut Vec<u8>) {
        put_list(out, self);
    }

    fn take(b: &[u8]) -> (r: Option<(Self, &[u8])>) {
        take_list::<StoredContact>(b)
    }

    proof fn round_trip(m: Seq<ContactView>, rest: Seq<u8>) {
        list_round_trip::<StoredContact>(m, rest);
    }
}

impl Record for Vec<ConversationMeta> {
    type Model = Seq<ConversationView>;

    open spec fn model(&self) -> Seq<ConversationView> {
        models(self@)
    }

    open spec fn put_spec(m: Seq<ConversationView>) -> Seq<u8> {
        put_list_spec::<ConversationMeta>(m)
    }

    open spec fn take_spec(b: Seq<u8>) -> Option<(Seq<ConversationView>, Seq<u8>)> {
        take_list_spec::<ConversationMeta>(b)
    }

    open spec fn fits(m: Seq<ConversationView>) -> bool {
        list_fits::<ConversationMeta>(m)
    }

    fn put(&self, out: &mut Vec<u8>) {
        put_list(out, self);
    }

    fn take(b: &[u8]) -> (r: Option<(Self, &[u8])>) {
        take_list::<ConversationMeta>(b)
    }

    proof fn round_trip(m: Seq<ConversationView>, rest: Seq<u8>) {
        list_round_trip::<ConversationMeta>(m, rest);
    }
}

impl Record for Vec<StoredMessage> {
    type Model = Seq<StoredMessageView>;

    open spec fn model(&self) -> Seq<StoredMessageView> {
        models(self@)
    }

    open spec fn put_spec(m: Seq<StoredMessageView>) -> Seq<u8> {
        put_list_spec::<StoredMessage>(m)
    }

    open spec fn take_spec(b: Seq<u8>) -> Option<(Seq<StoredMessageView>, Seq<u8>)> {
        take_list_spec::<StoredMessage>(b)
    }

    open spec fn fits(m: Seq<StoredMessageView>) -> bool {
        list_fits::<StoredMessage>(m)
    }

    fn put(&self, out: &mut Vec<u8>) {
        put_list(out, self);
    }

    fn take(b: &[u8]) -> (r: Option<(Self, &[u8])>) {
        take_list::<StoredMessage>(b)
    }

    proof fn round_trip(m: Seq<StoredMessageView>, rest: Seq<u8>) {
        list_round_trip::<StoredMessage>(m, rest);
    }
}

impl Record for Vec<PendingOutbound> {
    type Model = Seq<OutboundView>;

    open spec fn model(&self) -> Seq<OutboundView> {
        models(self@)
    }

    open spec fn put_spec(m: Seq<OutboundView>) -> Seq<u8> {
        put_list_spec::<PendingOutbound>(m)
    }

    open spec fn take_spec(b: Seq<u8>) -> Option<(Seq<OutboundView>, Seq<u8>)> {
        take_list_spec::<PendingOutbound>(b)
    }

    open spec fn fits(m: Seq<OutboundView>) -> bool {
        list_fits::<PendingOutbound>(m)
    }

    fn put(&self, out: &mut Vec<u8>) {
        put_list(out, self);
    }

    fn take(b: &[u8]) -> (r: Option<(Self, &[u8])>) {
        take_list::<PendingOutbound>(b)
    }

    proof fn round_trip(m: Seq<OutboundView>, rest: Seq<u8>) {
        list_round_trip::<PendingOutbound>(m, rest);
    }
}

impl AppSettings {
    /// The settings of a new vault.
    pub open spec fn default_view() -> SettingsView {
        SettingsView {
            tor_socks_addr: "127.0.0.1:9050"@,
            nym_gateway: None,
            default_auto_delete: None,
        }
    }
}

impl Default for AppSettings {
    fn default() -> (r: Self)
        ensures
            r@ == AppSettings::default_view(),
    {
        AppSettings {
            tor_socks_addr: "127.0.0.1:9050".to_owned(),
            nym_gateway: None,
            default_auto_delete: None,
        }
    }
}

} // verus!
