//! Sessions and message logs: what a vault holds of one conversation.
use crate::codec::{models, put_list_spec};
use crate::crypto::ratchet::{stored_state, RatchetState, RatchetView};
use crate::crypto::suite::sealable;
use crate::storage::records::{ConversationView, StoredMessage, StoredMessageView};
use crate::storage::vault::{
    conversation_key, conversation_position, conversation_position_is_first, with_conversation,
    VaultUnlocked, VaultView,
};
use vstd::prelude::*;
use vstd::string::StringSliceAdditionalSpecFns;

verus! {

impl VaultView {
    /// The conversation with a contact, if there is one.
    pub open spec fn talk(self, contact_id: Seq<u8>) -> Option<ConversationView> {
        match conversation_position(self.payload.conversations, contact_id) {
            Some(i) => Some(self.payload.conversations[i]),
            None => None,
        }
    }

    /// Whether a session with a contact was ever stored.
    pub open spec fn has_session(self, contact_id: Seq<u8>) -> bool {
        match self.talk(contact_id) {
            Some(c) => c.ratchet_state_ct.len() > 0,
            None => false,
        }
    }

    /// The session with a contact, if there is one that can be read.
    pub open spec fn session(self, contact_id: Seq<u8>) -> Option<RatchetView> {
        match self.talk(contact_id) {
            Some(c) => stored_state(
                conversation_key(self.master_key, contact_id),
                c.ratchet_state_ct,
            ),
            None => None,
        }
    }

    /// How many messages of a contact are unread.
    pub open spec fn unread(self, contact_id: Seq<u8>) -> u32 {
        match self.talk(contact_id) {
            Some(c) => c.unread_count,
            None => 0,
        }
    }
}

/// Whether `after` is `before` with `c` as the conversation with a contact,
/// which keeps its name and its deletion rule.
pub open spec fn talk_replaced(
    before: VaultView,
    after: VaultView,
    contact_id: Seq<u8>,
    id: Seq<u8>,
    c: ConversationView,
) -> bool {
    &&& after == before.with_replaced(contact_id, id, c)
    &&& c.contact_id == contact_id
    &&& c.id == before.conversation(contact_id, id).id
    &&& c.auto_delete_after == before.conversation(contact_id, id).auto_delete_after
}

/// Whether two vaults differ in the session, the log and the unread count of
/// one contact at most.
pub open spec fn only_talk_changed(
    before: VaultView,
    after: VaultView,
    contact_id: Seq<u8>,
) -> bool {
    ||| after == before
    ||| exists|id: Seq<u8>, c: ConversationView|
        #[trigger] talk_replaced(before, after, contact_id, id, c)
}

/// Whether `after` holds `messages` for a contact. A log too large to be
/// encrypted is not stored.
pub open spec fn log_set(
    before: VaultView,
    after: VaultView,
    contact_id: Seq<u8>,
    messages: Seq<StoredMessageView>,
) -> bool {
    if sealable(put_list_spec::<StoredMessage>(messages).len()) {
        after.messages(contact_id) == messages
    } else {
        after.messages(contact_id) == before.messages(contact_id)
    }
}

/// Making room for a conversation gives it a place, and leaves those of others
/// as they were.
pub proof fn lemma_with_conversation(
    s: Seq<ConversationView>,
    contact_id: Seq<u8>,
    id: Seq<u8>,
)
    ensures
        conversation_position(with_conversation(s, contact_id, id), contact_id) is Some,
        s.is_prefix_of(with_conversation(s, contact_id, id)),
        forall|other: Seq<u8>|
            other != contact_id ==> #[trigger] conversation_position(
                with_conversation(s, contact_id, id),
                other,
            ) == conversation_position(s, other),
{
    let t = with_conversation(s, contact_id, id);
    if conversation_position(s, contact_id) is None {
        assert(t.drop_last() =~= s);
        assert(t.last().contact_id == contact_id);
    }
    assert(s =~= t.subrange(0, s.len() as int));
}

/// Two lists that agree in whose conversations they hold agree in positions.
proof fn lemma_same_positions(s: Seq<ConversationView>, t: Seq<ConversationView>, who: Seq<u8>)
    requires
        s.len() == t.len(),
        forall|j: int| 0 <= j < s.len() ==> (#[trigger] s[j]).contact_id == t[j].contact_id,
    ensures
        conversation_position(t, who) == conversation_position(s, who),
    decreases s.len(),
{
    if s.len() > 0 {
        let s1 = s.drop_last();
        let t1 = t.drop_last();
        assert forall|j: int| 0 <= j < s1.len() implies (#[trigger] s1[j]).contact_id
            == t1[j].contact_id by {
            assert(s[j].contact_id == t[j].contact_id);
        }
        lemma_same_positions(s1, t1, who);
        assert(s[s.len() - 1].contact_id == t[t.len() - 1].contact_id);
    }
}

/// A conversation that was replaced is found again, replacing it again forgets
/// what stood in between, and the conversations of others are as they were.
pub proof fn lemma_replaced(
    before: VaultView,
    contact_id: Seq<u8>,
    id: Seq<u8>,
    c: ConversationView,
)
    requires
        c.contact_id == contact_id,
    ensures
        ({
            let after = before.with_replaced(contact_id, id, c);
            &&& after.talk(contact_id) == Some(c)
            &&& forall|other: Seq<u8>|
                other != contact_id ==> #[trigger] after.talk(other) == before.talk(other)
            &&& forall|id2: Seq<u8>|
                #[trigger] after.conversation(contact_id, id2) == c
            &&& forall|id2: Seq<u8>, c2: ConversationView|
                #[trigger] after.with_replaced(contact_id, id2, c2) == before.with_replaced(
                    contact_id,
                    id,
                    c2,
                )
        }),
{
    let after = before.with_replaced(contact_id, id, c);
    let s = before.payload.conversations;
    let all = with_conversation(s, contact_id, id);
    lemma_with_conversation(s, contact_id, id);
    conversation_position_is_first(all, contact_id);
    let i = conversation_position(all, contact_id)->0;
    let t = all.update(i, c);
    assert forall|j: int| 0 <= j < all.len() implies (#[trigger] all[j]).contact_id
        == t[j].contact_id by {}
    assert forall|who: Seq<u8>| #[trigger]
        conversation_position(t, who) == conversation_position(all, who) by {
        lemma_same_positions(all, t, who);
    }
    assert(after.payload.conversations == t);
    assert(t[i] == c);
    assert forall|other: Seq<u8>| other != contact_id implies #[trigger] after.talk(other)
        == before.talk(other) by {
        conversation_position_is_first(s, other);
        conversation_position_is_first(t, other);
        assert(conversation_position(t, other) == conversation_position(s, other));
        match conversation_position(s, other) {
            Some(k) => {
                assert(all[k] == s[k]);
                assert(k != i);
            },
            None => {},
        }
    }
    assert forall|id2: Seq<u8>, c2: ConversationView| #[trigger]
        after.with_replaced(contact_id, id2, c2) == before.with_replaced(contact_id, id, c2) by {
        assert(t.update(i, c2) =~= all.update(i, c2));
    }
}

/// What changes one conversation at most, twice, changes one at most.
pub proof fn lemma_only_talk_changed_twice(
    a: VaultView,
    b: VaultView,
    c: VaultView,
    contact_id: Seq<u8>,
)
    requires
        only_talk_changed(a, b, contact_id),
        only_talk_changed(b, c, contact_id),
    ensures
        only_talk_changed(a, c, contact_id),
{
    if b != a && c != b {
        let (id, x) = choose|id: Seq<u8>, x: ConversationView|
            #[trigger] talk_replaced(a, b, contact_id, id, x);
        let (id2, y) = choose|id2: Seq<u8>, y: ConversationView|
            #[trigger] talk_replaced(b, c, contact_id, id2, y);
        lemma_replaced(a, contact_id, id, x);
        assert(b.conversation(contact_id, id2) == x);
        assert(talk_replaced(a, c, contact_id, id, y));
    }
}

/// The conversations of others are never touched: their sessions, logs and
/// unread counts stay, and so does everything else in the vault.
pub proof fn other_conversations_are_kept(
    before: VaultView,
    after: VaultView,
    contact_id: Seq<u8>,
    other: Seq<u8>,
)
    requires
        only_talk_changed(before, after, contact_id),
        other != contact_id,
    ensures
        after.session(other) == before.session(other),
        after.messages(other) == before.messages(other),
        after.unread(other) == before.unread(other),
        after == before.with_conversations(after.payload.conversations),
{
    if after != before {
        let (id, c) = choose|id: Seq<u8>, c: ConversationView|
            #[trigger] talk_replaced(before, after, contact_id, id, c);
        lemma_replaced(before, contact_id, id, c);
        assert(after.talk(other) == before.talk(other));
        conversation_position_is_first(after.payload.conversations, other);
        conversation_position_is_first(before.payload.conversations, other);
    }
    assert(after =~= before.with_conversations(after.payload.conversations));
}

/// Stores a session in the conversation with a contact, which is made if there
/// was none.
pub fn store_session(vault: &mut VaultUnlocked, contact_id: &[u8; 32], state: &RatchetState)
    requires
        state.wf(),
    ensures
        only_talk_changed(old(vault)@, final(vault)@, contact_id@),
        final(vault)@.session(contact_id@) == Some(state@),
        final(vault)@.talk(contact_id@) is Some,
        final(vault)@.messages(contact_id@) == old(vault)@.messages(contact_id@),
        final(vault)@.unread(contact_id@) == old(vault)@.unread(contact_id@),
{
    let key = vault.derive_conversation_key(contact_id);
    let ct = match state.to_encrypted_bytes(&key) {
        Ok(ct) => ct,
        Err(_) => {
            return;
        },
    };
    let i = vault.conversation_index(contact_id);
    let ghost mid = vault@;
    let ghost id = choose|id: Seq<u8>|
        mid == old(vault)@.with_conversations(
            #[trigger] with_conversation(old(vault)@.payload.conversations, contact_id@, id),
        );
    let ghost all = mid.payload.conversations;
    let ghost stored = ct@;
    vault.payload.conversations[i].ratchet_state_ct = ct;
    proof {
        let c = ConversationView { ratchet_state_ct: stored, ..all[i as int] };
        conversation_position_is_first(all, contact_id@);
        assert(vault@.payload.conversations =~= all.update(i as int, c));
        assert(vault@ =~= old(vault)@.with_replaced(contact_id@, id, c));
        assert(old(vault)@.conversation(contact_id@, id) == all[i as int]);
        assert(talk_replaced(old(vault)@, vault@, contact_id@, id, c));
        lemma_replaced(old(vault)@, contact_id@, id, c);
        lemma_talk_of(old(vault)@, contact_id@, id);
        lemma_log_of(old(vault)@, contact_id@);
        lemma_log_of(vault@, contact_id@);
    }
}

/// The conversation that a contact has, or would get.
proof fn lemma_talk_of(v: VaultView, contact_id: Seq<u8>, id: Seq<u8>)
    ensures
        match v.talk(contact_id) {
            Some(c) => v.conversation(contact_id, id) == c,
            None => {
                &&& v.conversation(contact_id, id).ratchet_state_ct.len() == 0
                &&& v.conversation(contact_id, id).message_log_ct.len() == 0
                &&& v.conversation(contact_id, id).unread_count == 0
            },
        },
        v.conversation(contact_id, id).contact_id == contact_id,
{
    let s = v.payload.conversations;
    lemma_with_conversation(s, contact_id, id);
    let all = with_conversation(s, contact_id, id);
    conversation_position_is_first(s, contact_id);
    conversation_position_is_first(all, contact_id);
    if conversation_position(s, contact_id) is None {
        let i = conversation_position(all, contact_id)->0;
        if i < s.len() {
            assert(all[i] == s[i]);
        }
    }
}

/// The messages of a contact, by its conversation.
proof fn lemma_log_of(v: VaultView, contact_id: Seq<u8>)
    ensures
        v.messages(contact_id) == (match v.talk(contact_id) {
            Some(c) => crate::storage::vault::read_log(
                conversation_key(v.master_key, contact_id),
                c.message_log_ct,
            ),
            None => seq![],
        }),
{
}

/// The message that is logged behind `messages`.
pub open spec fn logged(
    messages: Seq<StoredMessageView>,
    content: Seq<char>,
    from_us: bool,
) -> Seq<StoredMessageView> {
    messages.push(StoredMessageView { counter: (messages.len() + 1) as u64, content, from_us })
}

/// Adds a message to the log of a contact, numbered from one on, and hands the
/// whole log out.
pub fn log_message(vault: &mut VaultUnlocked, contact_id: &[u8; 32], content: String, from_us: bool) -> (r:
    Vec<StoredMessage>)
    ensures
        models(r@) == logged(old(vault)@.messages(contact_id@), content@, from_us),
        only_talk_changed(old(vault)@, final(vault)@, contact_id@),
        log_set(old(vault)@, final(vault)@, contact_id@, models(r@)),
        final(vault)@.session(contact_id@) == old(vault)@.session(contact_id@),
        final(vault)@.unread(contact_id@) == old(vault)@.unread(contact_id@),
        old(vault)@.talk(contact_id@) is Some ==> final(vault)@.talk(contact_id@) is Some,
{
    let mut messages = vault.load_messages(contact_id);
    let ghost before = messages@;
    messages.push(StoredMessage { counter: 0, content, from_us });
    let n: usize = messages.len();
    messages[n - 1].counter = n as u64;
    assert(models(messages@) =~= logged(models(before), content@, from_us));
    keep_messages(vault, contact_id, &messages);
    messages
}

/// Stores the log of a contact where it can be encrypted.
pub fn keep_messages(vault: &mut VaultUnlocked, contact_id: &[u8; 32], messages: &Vec<StoredMessage>)
    ensures
        only_talk_changed(old(vault)@, final(vault)@, contact_id@),
        log_set(old(vault)@, final(vault)@, contact_id@, models(messages@)),
        final(vault)@.session(contact_id@) == old(vault)@.session(contact_id@),
        final(vault)@.unread(contact_id@) == old(vault)@.unread(contact_id@),
        old(vault)@.talk(contact_id@) is Some ==> final(vault)@.talk(contact_id@) is Some,
{
    let r = vault.save_messages(contact_id, messages);
    proof {
        if r is Ok {
            let (id, ct) = choose|id: Seq<u8>, ct: Seq<u8>|
                {
                    &&& #[trigger] crate::crypto::primitives::seals(
                        conversation_key(old(vault)@.master_key, contact_id@),
                        put_list_spec::<StoredMessage>(models(messages@)),
                        "op4-msglog-v1".spec_bytes(),
                        ct,
                    )
                    &&& vault@ == old(vault)@.with_replaced(
                        contact_id@,
                        id,
                        ConversationView {
                            message_log_ct: ct,
                            ..#[trigger] old(vault)@.conversation(contact_id@, id)
                        },
                    )
                };
            let c = ConversationView {
                message_log_ct: ct,
                ..old(vault)@.conversation(contact_id@, id)
            };
            lemma_talk_of(old(vault)@, contact_id@, id);
            assert(talk_replaced(old(vault)@, vault@, contact_id@, id, c));
            lemma_replaced(old(vault)@, contact_id@, id, c);
        }
    }
}

/// Counts one more unread message of a contact, where there is a conversation.
pub fn mark_unread(vault: &mut VaultUnlocked, contact_id: &[u8; 32])
    requires
        old(vault)@.has_room(),
    ensures
        only_talk_changed(old(vault)@, final(vault)@, contact_id@),
        final(vault)@.session(contact_id@) == old(vault)@.session(contact_id@),
        final(vault)@.messages(contact_id@) == old(vault)@.messages(contact_id@),
        final(vault)@.unread(contact_id@) == old(vault)@.unread(contact_id@) + (if old(
            vault,
        )@.talk(contact_id@) is Some {
            1int
        } else {
            0
        }),
        final(vault)@.talk(contact_id@) is Some <==> old(vault)@.talk(contact_id@) is Some,
{
    match vault.find_conversation_by_contact(contact_id) {
        None => {},
        Some(i) => {
            let ghost all = vault@.payload.conversations;
            assert(all[i as int] == vault.payload.conversations@[i as int]@);
            vault.payload.conversations[i].unread_count = vault.payload.conversations[i].unread_count
                + 1;
            proof {
                let c = ConversationView {
                    unread_count: (all[i as int].unread_count + 1) as u32,
                    ..all[i as int]
                };
                lemma_one_changed(old(vault)@, vault@, contact_id@, c);
            }
        },
    }
}

/// Takes the unread mark off a conversation, and says whether there was one.
pub fn clear_unread(vault: &mut VaultUnlocked, contact_id: &[u8; 32]) -> (r: bool)
    ensures
        r == (old(vault)@.unread(contact_id@) > 0),
        only_talk_changed(old(vault)@, final(vault)@, contact_id@),
        final(vault)@.session(contact_id@) == old(vault)@.session(contact_id@),
        final(vault)@.messages(contact_id@) == old(vault)@.messages(contact_id@),
        final(vault)@.unread(contact_id@) == 0,
        !r ==> final(vault)@ == old(vault)@,
{
    match vault.find_conversation_by_contact(contact_id) {
        None => false,
        Some(i) => {
            let ghost all = vault@.payload.conversations;
            assert(all[i as int] == vault.payload.conversations@[i as int]@);
            if vault.payload.conversations[i].unread_count == 0 {
                return false;
            }
            vault.payload.conversations[i].unread_count = 0;
            proof {
                let c = ConversationView { unread_count: 0, ..all[i as int] };
                lemma_one_changed(old(vault)@, vault@, contact_id@, c);
            }
            true
        },
    }
}

/// A changed unread count changes one conversation.
proof fn lemma_one_changed(
    before: VaultView,
    after: VaultView,
    contact_id: Seq<u8>,
    c: ConversationView,
)
    requires
        before.talk(contact_id) is Some,
        c == (ConversationView { unread_count: c.unread_count, ..before.talk(contact_id)->0 }),
        after.payload.conversations =~= before.payload.conversations.update(
            conversation_position(before.payload.conversations, contact_id)->0,
            c,
        ),
        after == before.with_conversations(after.payload.conversations),
    ensures
        only_talk_changed(before, after, contact_id),
        after.talk(contact_id) == Some(c),
        after.session(contact_id) == before.session(contact_id),
        after.messages(contact_id) == before.messages(contact_id),
{
    let id = c.id;
    conversation_position_is_first(before.payload.conversations, contact_id);
    assert(after =~= before.with_replaced(contact_id, id, c));
    assert(talk_replaced(before, after, contact_id, id, c));
    lemma_replaced(before, contact_id, id, c);
    lemma_log_of(before, contact_id);
    lemma_log_of(after, contact_id);
}

impl VaultView {
    /// Whether every counter in the vault leaves room for what one message or
    /// one key press adds to it.
    pub open spec fn has_room(self) -> bool {
        &&& self.payload.sequence < u64::MAX - 1
        &&& forall|i: int|
            0 <= i < self.payload.conversations.len() ==> (
            #[trigger] self.payload.conversations[i]).unread_count < u32::MAX
        &&& forall|i: int|
            0 <= i < self.payload.contacts.len() ==> (
            #[trigger] self.payload.contacts[i]).last_key_seq < u64::MAX
    }
}

/// A change to one conversation that keeps its unread count leaves the
/// counters room.
pub proof fn lemma_room(before: VaultView, after: VaultView, contact_id: Seq<u8>)
    requires
        before.has_room(),
        only_talk_changed(before, after, contact_id),
        after.unread(contact_id) == before.unread(contact_id),
    ensures
        after.has_room(),
{
    if after != before {
        let (id, c) = choose|id: Seq<u8>, c: ConversationView|
            #[trigger] talk_replaced(before, after, contact_id, id, c);
        lemma_replaced(before, contact_id, id, c);
        let s = before.payload.conversations;
        let all = with_conversation(s, contact_id, id);
        lemma_with_conversation(s, contact_id, id);
        conversation_position_is_first(s, contact_id);
        conversation_position_is_first(all, contact_id);
        assert forall|j: int| 0 <= j < after.payload.conversations.len() implies (
        #[trigger] after.payload.conversations[j]).unread_count < u32::MAX by {
            if j < s.len() {
                assert(all[j] == s[j]);
            }
        }
    }
}

/// Whether every counter in the vault leaves room for what one message or one
/// key press adds to it.
pub fn vault_has_room(vault: &VaultUnlocked) -> (r: bool)
    ensures
        r == vault@.has_room(),
{
    if vault.payload.sequence >= u64::MAX - 1 {
        return false;
    }
    let ghost talks = vault@.payload.conversations;
    let ghost contacts = vault@.payload.contacts;
    let mut i: usize = 0;
    while i < vault.payload.conversations.len()
        invariant
            i <= talks.len(),
            talks == models(vault.payload.conversations@),
            talks == vault@.payload.conversations,
            forall|j: int| 0 <= j < i ==> (#[trigger] talks[j]).unread_count < u32::MAX,
        decreases talks.len() - i,
    {
        assert(talks[i as int] == vault.payload.conversations@[i as int]@);
        if vault.payload.conversations[i].unread_count == u32::MAX {
            return false;
        }
        i = i + 1;
    }
    let mut i: usize = 0;
    while i < vault.payload.contacts.len()
        invariant
            i <= contacts.len(),
            contacts == models(vault.payload.contacts@),
            contacts == vault@.payload.contacts,
            forall|j: int| 0 <= j < i ==> (#[trigger] contacts[j]).last_key_seq < u64::MAX,
        decreases contacts.len() - i,
    {
        assert(contacts[i as int] == vault.payload.contacts@[i as int]@);
        if vault.payload.contacts[i].last_key_seq == u64::MAX {
            return false;
        }
        i = i + 1;
    }
    true
}

/// A change to one conversation leaves the sequence as it is.
pub proof fn lemma_same_sequence(before: VaultView, after: VaultView, contact_id: Seq<u8>)
    requires
        only_talk_changed(before, after, contact_id),
    ensures
        after.payload.sequence == before.payload.sequence,
{
}

} // verus!
