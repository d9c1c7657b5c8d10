//! The payload of a vault section, and the one-time prekeys in it.
use crate::codec::{models, Record};
use crate::crypto::handshake::{opk_id, opk_id_of};
use crate::crypto::suite;
use crate::crypto::suite::{drawn_32, x25519_base};
use crate::bytes;
use crate::identity::profile::{ContactView, StoredContact};
use crate::storage::records::{
    AppSettings, ConversationMeta, ConversationView, OutboundView, PendingOutbound, SettingsView,
};
use vstd::prelude::*;

verus! {

/// Number of one-time prekeys in a batch.
pub const OPK_BATCH_SIZE: usize = 10;

/// A new batch is made once no more than this many are left.
pub const OPK_REPLENISH_THRESHOLD: usize = 3;

/// What a vault section holds once it is decrypted.
#[derive(Debug)]
pub struct VaultPayload {
    /// Our onion address.
    pub nym_address: String,
    /// Our KEM key pair, or nothing before the first run.
    pub identity_kem_secret: Vec<u8>,
    /// Our signing key pair, or nothing before the first run.
    pub identity_signing_secret: Vec<u8>,
    /// The X25519 secret that sessions with us start from.
    pub identity_ratchet_secret: Vec<u8>,
    pub contacts: Vec<StoredContact>,
    pub conversations: Vec<ConversationMeta>,
    pub settings: AppSettings,
    /// Counts the saves.
    pub sequence: u64,
    /// Messages that wait for their recipients.
    pub outbox: Vec<PendingOutbound>,
    /// Secrets of our one-time prekeys; each is removed once it was used.
    pub opk_secrets: Vec<[u8; 32]>,
}

/// What a [`VaultPayload`] means.
#[verifier::ext_equal]
pub struct PayloadView {
    pub nym_address: Seq<char>,
    pub identity_kem_secret: Seq<u8>,
    pub identity_signing_secret: Seq<u8>,
    pub identity_ratchet_secret: Seq<u8>,
    pub contacts: Seq<ContactView>,
    pub conversations: Seq<ConversationView>,
    pub settings: SettingsView,
    pub sequence: u64,
    pub outbox: Seq<OutboundView>,
    pub opk_secrets: Seq<Seq<u8>>,
}

/// The fields of a [`VaultPayload`], in the order of its record.
pub type PayloadRecord = (String, (Vec<u8>, (Vec<u8>, (Vec<u8>, (Vec<StoredContact>, (Vec<ConversationMeta>, (AppSettings, (u64, (Vec<PendingOutbound>, Vec<[u8; 32]>)))))))));

impl View for VaultPayload {
    type V = PayloadView;

    open spec fn view(&self) -> PayloadView {
        PayloadView {
            nym_address: self.nym_address@,
            identity_kem_secret: self.identity_kem_secret@,
            identity_signing_secret: self.identity_signing_secret@,
            identity_ratchet_secret: self.identity_ratchet_secret@,
            contacts: models(self.contacts@),
            conversations: models(self.conversations@),
            settings: self.settings@,
            sequence: self.sequence,
            outbox: models(self.outbox@),
            opk_secrets: models(self.opk_secrets@),
        }
    }
}

impl PayloadView {
    /// The fields in the order of the record.
    pub open spec fn fields(self) -> <PayloadRecord as Record>::Model {
        (self.nym_address, (self.identity_kem_secret, (self.identity_signing_secret, (self.identity_ratchet_secret, (self.contacts, (self.conversations, (self.settings, (self.sequence, (self.outbox, self.opk_secrets)))))))))
    }
}

/// The last fields of a payload's record.
pub type ContentsRecord = (Vec<StoredContact>, (Vec<ConversationMeta>, UpkeepRecord));

/// The fields behind the conversations of a payload's record.
pub type UpkeepRecord = (AppSettings, (u64, (Vec<PendingOutbound>, Vec<[u8; 32]>)));

impl VaultPayload {
    /// Writes everything behind the conversations.
    fn put_upkeep(&self, out: &mut Vec<u8>)
        ensures
            final(out)@ == old(out)@ + UpkeepRecord::put_spec(self@.upkeep()),
            UpkeepRecord::fits(self@.upkeep()),
    {
        self.settings.put(out);
        self.sequence.put(out);
        self.outbox.put(out);
        self.opk_secrets.put(out);
        assert(out@ =~= old(out)@ + UpkeepRecord::put_spec(self@.upkeep()));
    }

    /// Writes everything behind the identity secrets.
    fn put_contents(&self, out: &mut Vec<u8>)
        ensures
            final(out)@ == old(out)@ + ContentsRecord::put_spec(self@.contents()),
            ContentsRecord::fits(self@.contents()),
    {
        self.contacts.put(out);
        self.conversations.put(out);
        self.put_upkeep(out);
        assert(out@ =~= old(out)@ + ContentsRecord::put_spec(self@.contents()));
    }
}

impl PayloadView {
    /// The fields behind the identity secrets.
    pub open spec fn contents(self) -> <ContentsRecord as Record>::Model {
        (self.contacts, (self.conversations, self.upkeep()))
    }

    /// The fields behind the conversations.
    pub open spec fn upkeep(self) -> <UpkeepRecord as Record>::Model {
        (self.settings, (self.sequence, (self.outbox, self.opk_secrets)))
    }
}

impl Record for VaultPayload {
    type Model = PayloadView;

    open spec fn model(&self) -> PayloadView {
        self@
    }

    open spec fn put_spec(m: PayloadView) -> Seq<u8> {
        PayloadRecord::put_spec(m.fields())
    }

    open spec fn take_spec(b: Seq<u8>) -> Option<(PayloadView, Seq<u8>)> {
        match PayloadRecord::take_spec(b) {
            Some((f, rest)) => Some(
                (
                    PayloadView {
                        nym_address: f.0,
                        identity_kem_secret: f.1.0,
                        identity_signing_secret: f.1.1.0,
                        identity_ratchet_secret: f.1.1.1.0,
                        contacts: f.1.1.1.1.0,
                        conversations: f.1.1.1.1.1.0,
                        settings: f.1.1.1.1.1.1.0,
                        sequence: f.1.1.1.1.1.1.1.0,
                        outbox: f.1.1.1.1.1.1.1.1.0,
                        opk_secrets: f.1.1.1.1.1.1.1.1.1,
                    },
                    rest,
                ),
            ),
            None => None,
        }
    }

    open spec fn fits(m: PayloadView) -> bool {
        PayloadRecord::fits(m.fields())
    }

    fn put(&self, out: &mut Vec<u8>) {
        self.nym_address.put(out);
        self.identity_kem_secret.put(out);
        self.identity_signing_secret.put(out);
        self.identity_ratchet_secret.put(out);
        self.put_contents(out);
        assert(out@ =~= old(out)@ + Self::put_spec(self.model()));
    }

    fn take(b: &[u8]) -> (r: Option<(Self, &[u8])>) {
        match PayloadRecord::take(b) {
            Some((f, rest)) => {
                let (nym_address, (identity_kem_secret, (identity_signing_secret, (identity_ratchet_secret, (contacts, (conversations, (settings, (sequence, (outbox, opk_secrets))))))))) = f;
                Some((VaultPayload { nym_address, identity_kem_secret, identity_signing_secret, identity_ratchet_secret, contacts, conversations, settings, sequence, outbox, opk_secrets }, rest))
            },
            None => None,
        }
    }

    proof fn round_trip(m: PayloadView, rest: Seq<u8>) {
        PayloadRecord::round_trip(m.fields(), rest);
    }
}

impl PayloadView {
    /// An empty payload at an address.
    pub open spec fn empty_at(nym_address: Seq<char>) -> PayloadView {
        PayloadView {
            nym_address,
            identity_kem_secret: seq![],
            identity_signing_secret: seq![],
            identity_ratchet_secret: seq![],
            contacts: seq![],
            conversations: seq![],
            settings: AppSettings::default_view(),
            sequence: 0,
            outbox: seq![],
            opk_secrets: seq![],
        }
    }
}

impl Default for VaultPayload {
    fn default() -> (r: Self)
        ensures
            r@ == PayloadView::empty_at(seq![]),
    {
        VaultPayload::empty_at(String::new())
    }
}

/// Where the first secret with the short name `id` stands.
pub open spec fn opk_position(secrets: Seq<Seq<u8>>, id: Seq<u8>) -> Option<int>
    decreases secrets.len(),
{
    if secrets.len() == 0 {
        None
    } else {
        match opk_position(secrets.drop_last(), id) {
            Some(i) => Some(i),
            None => if opk_id(secrets.last()) == id {
                Some(secrets.len() - 1)
            } else {
                None
            },
        }
    }
}

impl VaultPayload {
    /// An empty payload at an address.
    pub fn empty_at(nym_address: String) -> (r: Self)
        ensures
            r@ == PayloadView::empty_at(nym_address@),
    {
        let r = VaultPayload {
            nym_address,
            identity_kem_secret: Vec::new(),
            identity_signing_secret: Vec::new(),
            identity_ratchet_secret: Vec::new(),
            contacts: Vec::new(),
            conversations: Vec::new(),
            settings: AppSettings::default(),
            sequence: 0,
            outbox: Vec::new(),
            opk_secrets: Vec::new(),
        };
        assert(r@ =~= PayloadView::empty_at(nym_address@));
        r
    }

    /// Adds a fresh batch of one-time prekeys.
    pub fn generate_opks(&mut self)
        ensures
            final(self)@ == (PayloadView { opk_secrets: final(self)@.opk_secrets, ..old(self)@ }),
            final(self)@.opk_secrets.len() == old(self)@.opk_secrets.len() + OPK_BATCH_SIZE,
            old(self)@.opk_secrets.is_prefix_of(final(self)@.opk_secrets),
            forall|j: int|
                old(self)@.opk_secrets.len() <= j < final(self)@.opk_secrets.len() ==> drawn_32(
                    #[trigger] final(self)@.opk_secrets[j],
                ),
    {
        let ghost start = self.opk_secrets@;
        let mut i: usize = 0;
        while i < OPK_BATCH_SIZE
            invariant
                i <= OPK_BATCH_SIZE,
                self.opk_secrets@.len() == start.len() + i,
                forall|j: int| 0 <= j < start.len() ==> self.opk_secrets@[j] == start[j],
                forall|j: int|
                    start.len() <= j < self.opk_secrets@.len() ==> drawn_32(
                        (#[trigger] self.opk_secrets@[j])@,
                    ),
                self@ == (PayloadView { opk_secrets: self@.opk_secrets, ..old(self)@ }),
                start == old(self).opk_secrets@,
            decreases OPK_BATCH_SIZE - i,
        {
            let secret = suite::fresh_32();
            self.opk_secrets.push(secret);
            i = i + 1;
        }
        assert(models(start) =~= self@.opk_secrets.subrange(0, start.len() as int));
    }

    /// The public keys of the one-time prekeys.
    pub fn opk_public_keys(&self) -> (r: Vec<[u8; 32]>)
        ensures
            r@.len() == self.opk_secrets@.len(),
            forall|i: int| 0 <= i < r@.len() ==> (#[trigger] r@[i])@ == x25519_base(
                self.opk_secrets@[i]@,
            ),
    {
        let mut r: Vec<[u8; 32]> = Vec::new();
        let mut i: usize = 0;
        while i < self.opk_secrets.len()
            invariant
                i <= self.opk_secrets@.len(),
                r@.len() == i,
                forall|j: int| 0 <= j < i ==> (#[trigger] r@[j])@ == x25519_base(
                    self.opk_secrets@[j]@,
                ),
            decreases self.opk_secrets@.len() - i,
        {
            r.push(suite::x25519_public(&self.opk_secrets[i]));
            i = i + 1;
        }
        r
    }

    /// The short name of the prekey with a secret.
    pub fn opk_id_for_secret(secret: &[u8; 32]) -> (r: [u8; 4])
        ensures
            r@ == opk_id(secret@),
    {
        opk_id_of(secret)
    }

    /// The short names of the one-time prekeys, in the order of
    /// [`VaultPayload::opk_public_keys`].
    pub fn opk_ids(&self) -> (r: Vec<[u8; 4]>)
        ensures
            r@.len() == self.opk_secrets@.len(),
            forall|i: int| 0 <= i < r@.len() ==> (#[trigger] r@[i])@ == opk_id(
                self.opk_secrets@[i]@,
            ),
    {
        let mut r: Vec<[u8; 4]> = Vec::new();
        let mut i: usize = 0;
        while i < self.opk_secrets.len()
            invariant
                i <= self.opk_secrets@.len(),
                r@.len() == i,
                forall|j: int| 0 <= j < i ==> (#[trigger] r@[j])@ == opk_id(
                    self.opk_secrets@[j]@,
                ),
            decreases self.opk_secrets@.len() - i,
        {
            r.push(opk_id_of(&self.opk_secrets[i]));
            i = i + 1;
        }
        r
    }

    /// Removes the first one-time prekey with a short name and gives its
    /// secret out; the others stay in their order.
    pub fn consume_opk_by_id(&mut self, id: &[u8; 4]) -> (r: Option<[u8; 32]>)
        ensures
            match r {
                Some(secret) => {
                    &&& opk_position(old(self)@.opk_secrets, id@) matches Some(i)
                    &&& 0 <= i < old(self)@.opk_secrets.len()
                    &&& secret@ == old(self)@.opk_secrets[i]
                    &&& opk_id(secret@) == id@
                    &&& final(self)@ == (PayloadView {
                        opk_secrets: old(self)@.opk_secrets.remove(i),
                        ..old(self)@
                    })
                },
                None => opk_position(old(self)@.opk_secrets, id@) is None && final(self)@
                    == old(self)@,
            },
    {
        let ghost all = self@.opk_secrets;
        let mut i: usize = 0;
        while i < self.opk_secrets.len()
            invariant
                i <= self.opk_secrets@.len(),
                self@ == old(self)@,
                all == self@.opk_secrets,
                opk_position(all.take(i as int), id@) is None,
            decreases self.opk_secrets@.len() - i,
        {
            let here = opk_id_of(&self.opk_secrets[i]);
            proof {
                let t = all.take(i + 1);
                assert(t.drop_last() =~= all.take(i as int));
                assert(t.last() == all[i as int]);
            }
            if bytes::same_bytes(&here, id) {
                proof {
                    lemma_position_extends(all, (i + 1) as int, id@);
                }
                let secret = self.opk_secrets.remove(i);
                assert(self@.opk_secrets =~= all.remove(i as int));
                return Some(secret);
            }
            i = i + 1;
        }
        assert(all.take(i as int) =~= all);
        None
    }

    /// Adds a batch of one-time prekeys where few are left, and says whether
    /// it did.
    pub fn replenish_opks_if_needed(&mut self) -> (r: bool)
        ensures
            r == (old(self)@.opk_secrets.len() <= OPK_REPLENISH_THRESHOLD),
            final(self)@ == (PayloadView { opk_secrets: final(self)@.opk_secrets, ..old(self)@ }),
            old(self)@.opk_secrets.is_prefix_of(final(self)@.opk_secrets),
            forall|j: int|
                old(self)@.opk_secrets.len() <= j < final(self)@.opk_secrets.len() ==> drawn_32(
                    #[trigger] final(self)@.opk_secrets[j],
                ),
            final(self)@.opk_secrets.len() == old(self)@.opk_secrets.len() + (if r {
                OPK_BATCH_SIZE as int
            } else {
                0
            }),
    {
        if self.opk_secrets.len() <= OPK_REPLENISH_THRESHOLD {
            self.generate_opks();
            true
        } else {
            assert(self@.opk_secrets =~= self@.opk_secrets.subrange(
                0,
                self@.opk_secrets.len() as int,
            ));
            false
        }
    }
}

/// A position found in the front of a list is its position in the list.
proof fn lemma_position_extends(s: Seq<Seq<u8>>, n: int, id: Seq<u8>)
    requires
        0 <= n <= s.len(),
        opk_position(s.take(n), id) is Some,
    ensures
        opk_position(s, id) == opk_position(s.take(n), id),
    decreases s.len() - n,
{
    if n == s.len() {
        assert(s.take(n) =~= s);
    } else {
        assert(s.take(n + 1).drop_last() =~= s.take(n));
        lemma_position_extends(s, n + 1, id);
    }
}

/// A prekey is found by its name wherever it stands, the first of that name, and
/// is missing only where no secret has the name.
pub proof fn prekey_is_found(secrets: Seq<Seq<u8>>, id: Seq<u8>)
    ensures
        match opk_position(secrets, id) {
            Some(i) => {
                &&& 0 <= i < secrets.len()
                &&& opk_id(secrets[i]) == id
                &&& forall|j: int| 0 <= j < i ==> opk_id(#[trigger] secrets[j]) != id
            },
            None => forall|j: int|
                0 <= j < secrets.len() ==> opk_id(#[trigger] secrets[j]) != id,
        },
    decreases secrets.len(),
{
    if secrets.len() > 0 {
        let front = secrets.drop_last();
        prekey_is_found(front, id);
        assert forall|j: int| 0 <= j < front.len() implies front[j] == #[trigger] secrets[j] by {}
        assert(secrets.last() == secrets[secrets.len() - 1]);
    }
}

/// A consumed prekey is gone: its name is found again only where another
/// secret has the same name.
pub proof fn consumed_opk_is_gone(secrets: Seq<Seq<u8>>, id: Seq<u8>, i: int)
    requires
        opk_position(secrets, id) == Some(i),
        0 <= i < secrets.len(),
        forall|j: int| 0 <= j < secrets.len() && j != i ==> opk_id(#[trigger] secrets[j]) != id,
    ensures
        opk_position(secrets.remove(i), id) is None,
{
    let t = secrets.remove(i);
    assert forall|j: int| 0 <= j < t.len() implies opk_id(#[trigger] t[j]) != id by {
        assert(t[j] == secrets[if j < i { j } else { j + 1 }]);
    }
    lemma_no_position(t, id);
}

proof fn lemma_no_position(s: Seq<Seq<u8>>, id: Seq<u8>)
    requires
        forall|j: int| 0 <= j < s.len() ==> opk_id(#[trigger] s[j]) != id,
    ensures
        opk_position(s, id) is None,
    decreases s.len(),
{
    if s.len() > 0 {
        assert forall|j: int| 0 <= j < s.drop_last().len() implies opk_id(
            #[trigger] s.drop_last()[j],
        ) != id by {
            assert(s.drop_last()[j] == s[j]);
        }
        lemma_no_position(s.drop_last(), id);
        assert(s.last() == s[s.len() - 1]);
    }
}

} // verus!
