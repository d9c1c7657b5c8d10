//! The vault file: two encrypted sections of the same size, one for each
//! passphrase, and the marker that tells an old copy of the file.
use crate::bytes;
use crate::bytes::{from_le32, from_le64, le32, le64};
use crate::codec::{
    list_fits, list_round_trip, models, put_list, put_list_spec, take_list, take_list_spec, Record,
};
use crate::crypto::primitives::{
    aead_decrypt, aead_encrypt, argon2id_derive, hkdf_32, hmac_sign_raw, hmac_verify_raw, opened,
    seals, Argon2Params, SymKey, AEAD_NONCE_LEN,
};
use crate::crypto::suite;
use crate::crypto::suite::{
    argon2_costs_ok, argon2id, drawn_32, drawn_bytes, drawn_nonce, hkdf_sha256, hmac_sha256, sealable,
};
use crate::error::{CryptoError, VaultError};
use crate::storage::payload::{PayloadView, VaultPayload};
use crate::storage::records::{
    ConversationMeta, ConversationView, StoredMessage, StoredMessageView,
};
use vstd::prelude::*;
use vstd::string::StringSliceAdditionalSpecFns;

verus! {

/// Version of the file format: ciphertext lengths stand in the header, so that
/// the padding behind a section is never decrypted.
pub const VAULT_VERSION: u8 = 2;

/// Length of a passphrase salt.
pub const SALT_LEN: usize = 32;

/// Length of everything in front of the sections.
pub const HEADER_LEN: usize = 77;

/// Length of a rollback marker.
pub const MARKER_LEN: usize = 40;

/// What every vault file starts with, which is also bound into its
/// ciphertexts: `OP4V`.
pub open spec fn magic() -> Seq<u8> {
    seq![0x4fu8, 0x50u8, 0x34u8, 0x56u8]
}

fn vault_magic() -> (r: [u8; 4])
    ensures
        r@ == magic(),
{
    let r = [0x4fu8, 0x50u8, 0x34u8, 0x56u8];
    assert(r@ =~= magic());
    r
}

/// What a vault file holds: the salts and the two ciphertexts.
#[verifier::ext_equal]
pub struct SectionsView {
    pub normal_salt: Seq<u8>,
    pub duress_salt: Seq<u8>,
    pub normal: Seq<u8>,
    pub duress: Seq<u8>,
}

/// The sections of a vault file, or why it is none.
pub open spec fn sections_of(data: Seq<u8>) -> Result<SectionsView, VaultError> {
    if data.len() < HEADER_LEN {
        Err(VaultError::Corrupt)
    } else if data.take(4) != magic() {
        Err(VaultError::InvalidMagic)
    } else if data[4] != VAULT_VERSION {
        Err(VaultError::InvalidVersion)
    } else {
        let half = (data.len() - HEADER_LEN) / 2;
        let normal_len = from_le32(data.subrange(69, 73)) as int;
        let duress_len = from_le32(data.subrange(73, 77)) as int;
        if normal_len > half || duress_len > half {
            Err(VaultError::Corrupt)
        } else {
            Ok(
                SectionsView {
                    normal_salt: data.subrange(5, 37),
                    duress_salt: data.subrange(37, 69),
                    normal: data.subrange(77, 77 + normal_len),
                    duress: data.subrange(77 + half, 77 + half + duress_len),
                },
            )
        }
    }
}

/// Where the parts of a vault file stand.
pub struct VaultHeader {
    pub normal_salt: [u8; 32],
    pub duress_salt: [u8; 32],
    /// Length of the normal ciphertext, without padding.
    pub normal_ct_len: usize,
    /// Length of the duress ciphertext, without padding.
    pub duress_ct_len: usize,
    pub normal_section_offset: usize,
    pub duress_section_offset: usize,
}

impl VaultHeader {
    /// Whether the header describes the sections `s` of `data`.
    pub open spec fn describes(&self, data: Seq<u8>, s: SectionsView) -> bool {
        &&& self.normal_salt@ == s.normal_salt
        &&& self.duress_salt@ == s.duress_salt
        &&& self.normal_ct_len == s.normal.len()
        &&& self.duress_ct_len == s.duress.len()
        &&& self.normal_section_offset == HEADER_LEN
        &&& self.duress_section_offset == HEADER_LEN + (data.len() - HEADER_LEN) / 2
        &&& self.normal_section_offset + self.normal_ct_len <= data.len()
        &&& self.duress_section_offset + self.duress_ct_len <= data.len()
        &&& s.normal == data.subrange(
            self.normal_section_offset as int,
            self.normal_section_offset + self.normal_ct_len,
        )
        &&& s.duress == data.subrange(
            self.duress_section_offset as int,
            self.duress_section_offset + self.duress_ct_len,
        )
    }
}

/// Reads the header of a vault file.
pub fn parse_header(data: &[u8]) -> (r: Result<VaultHeader, VaultError>)
    ensures
        match r {
            Ok(h) => sections_of(data@) matches Ok(s) && h.describes(data@, s),
            Err(e) => sections_of(data@) == Err::<SectionsView, VaultError>(e),
        },
{
    if data.len() < HEADER_LEN {
        return Err(VaultError::Corrupt);
    }
    let start = bytes::array_at::<4>(data, 0);
    assert(start@ =~= data@.take(4));
    if !bytes::same_bytes(&start, &vault_magic()) {
        return Err(VaultError::InvalidMagic);
    }
    if data[4] != VAULT_VERSION {
        return Err(VaultError::InvalidVersion);
    }
    let normal_salt = bytes::array_at::<32>(data, 5);
    let duress_salt = bytes::array_at::<32>(data, 37);
    let normal_ct_len = bytes::u32_from_le(&bytes::array_at::<4>(data, 69)) as usize;
    let duress_ct_len = bytes::u32_from_le(&bytes::array_at::<4>(data, 73)) as usize;
    let half: usize = (data.len() - HEADER_LEN) / 2;
    if normal_ct_len > half || duress_ct_len > half {
        return Err(VaultError::Corrupt);
    }
    Ok(
        VaultHeader {
            normal_salt,
            duress_salt,
            normal_ct_len,
            duress_ct_len,
            normal_section_offset: HEADER_LEN,
            duress_section_offset: HEADER_LEN + half,
        },
    )
}

/// What a section opens to under a key.
pub open spec fn section_payload(key: Seq<u8>, ct: Seq<u8>) -> Option<PayloadView> {
    match opened(key, ct, magic()) {
        None => None,
        Some(plain) => match VaultPayload::take_spec(plain) {
            Some((p, _)) => Some(p),
            None => None,
        },
    }
}

/// Decrypts and decodes a section.
fn try_decrypt_section(key: &SymKey, section: &[u8]) -> (r: Option<VaultPayload>)
    ensures
        match r {
            Some(p) => section_payload(key@, section@) == Some(p@),
            None => section_payload(key@, section@) is None,
        },
{
    match aead_decrypt(key, section, &vault_magic()) {
        Err(_) => None,
        Ok(plain) => match VaultPayload::take(&plain) {
            Some((p, _)) => Some(p),
            None => None,
        },
    }
}

/// An unlocked vault.
pub struct VaultUnlocked {
    pub payload: VaultPayload,
    /// Whether the duress passphrase opened it.
    pub is_duress: bool,
    /// Key of the open section.
    pub master_key: SymKey,
    pub normal_salt: [u8; 32],
    pub duress_salt: [u8; 32],
    /// The ciphertext of the section that is not open. It is kept through
    /// every save, so that the other passphrase goes on working.
    pub other_ct: Vec<u8>,
}

/// What a [`VaultUnlocked`] means.
#[verifier::ext_equal]
pub struct VaultView {
    pub payload: PayloadView,
    pub is_duress: bool,
    pub master_key: Seq<u8>,
    pub normal_salt: Seq<u8>,
    pub duress_salt: Seq<u8>,
    pub other_ct: Seq<u8>,
}

impl View for VaultUnlocked {
    type V = VaultView;

    open spec fn view(&self) -> VaultView {
        VaultView {
            payload: self.payload@,
            is_duress: self.is_duress,
            master_key: self.master_key@,
            normal_salt: self.normal_salt@,
            duress_salt: self.duress_salt@,
            other_ct: self.other_ct@,
        }
    }
}

/// What the sections of a file open to under the two keys of a passphrase: the
/// normal section first, then the duress section.
pub open spec fn open_sections(s: SectionsView, normal_key: Seq<u8>, duress_key: Seq<u8>) -> Result<
    VaultView,
    VaultError,
> {
    match section_payload(normal_key, s.normal) {
        Some(payload) => Ok(
            VaultView {
                payload,
                is_duress: false,
                master_key: normal_key,
                normal_salt: s.normal_salt,
                duress_salt: s.duress_salt,
                other_ct: s.duress,
            },
        ),
        None => match section_payload(duress_key, s.duress) {
            Some(payload) => Ok(
                VaultView {
                    payload,
                    is_duress: true,
                    master_key: duress_key,
                    normal_salt: s.normal_salt,
                    duress_salt: s.duress_salt,
                    other_ct: s.normal,
                },
            ),
            None => Err(VaultError::InvalidPassphrase),
        },
    }
}

/// The key of a passphrase and a salt.
pub open spec fn passphrase_key(passphrase: Seq<u8>, salt: Seq<u8>, params: Argon2Params) -> Seq<
    u8,
> {
    argon2id(passphrase, salt, params.m_cost, params.t_cost, params.p_cost)
}

/// Why no key can be derived, if none can.
pub open spec fn derive_error(passphrase: Seq<u8>, params: Argon2Params) -> Option<CryptoError> {
    if !argon2_costs_ok(params.m_cost, params.t_cost, params.p_cost) {
        Some(CryptoError::Argon2Params)
    } else if passphrase.len() > 0xffff_ffff {
        Some(CryptoError::Argon2Hash)
    } else {
        None
    }
}

/// What a passphrase makes of a vault file.
pub open spec fn unlock_spec(data: Seq<u8>, passphrase: Seq<u8>, params: Argon2Params) -> Result<
    VaultView,
    VaultError,
> {
    match sections_of(data) {
        Err(e) => Err(e),
        Ok(s) => match derive_error(passphrase, params) {
            Some(e) => Err(VaultError::Crypto(e)),
            None => open_sections(
                s,
                passphrase_key(passphrase, s.normal_salt, params),
                passphrase_key(passphrase, s.duress_salt, params),
            ),
        },
    }
}

/// A vault file with the sections `s`: header, the two ciphertexts, each
/// filled up to the length of the longer one.
pub open spec fn is_file(file: Seq<u8>, s: SectionsView) -> bool {
    let longer = if s.normal.len() >= s.duress.len() {
        s.normal.len()
    } else {
        s.duress.len()
    };
    &&& file.len() == HEADER_LEN + 2 * longer
    &&& file.take(HEADER_LEN as int) == magic() + seq![VAULT_VERSION] + s.normal_salt
        + s.duress_salt + le32(s.normal.len() as u32) + le32(s.duress.len() as u32)
    &&& file.subrange(HEADER_LEN as int, (HEADER_LEN + s.normal.len()) as int) == s.normal
    &&& file.subrange(
        (HEADER_LEN + longer) as int,
        (HEADER_LEN + longer + s.duress.len()) as int,
    ) == s.duress
}

/// Whether what fills up the sections `s` of a file came from the generator.
pub open spec fn filled_at_random(file: Seq<u8>, s: SectionsView) -> bool {
    let longer = if s.normal.len() >= s.duress.len() {
        s.normal.len()
    } else {
        s.duress.len()
    };
    let half = HEADER_LEN + longer;
    &&& drawn_bytes(file.subrange((HEADER_LEN + s.normal.len()) as int, half as int))
    &&& drawn_bytes(file.subrange((half + s.duress.len()) as int, (half + longer) as int))
}

/// The sections of a file that was built are the ones it was built from.
pub proof fn built_file_reads_back(file: Seq<u8>, s: SectionsView)
    requires
        is_file(file, s),
        s.normal_salt.len() == SALT_LEN,
        s.duress_salt.len() == SALT_LEN,
        s.normal.len() <= u32::MAX,
        s.duress.len() <= u32::MAX,
    ensures
        sections_of(file) == Ok::<SectionsView, VaultError>(s),
{
    let head = file.take(HEADER_LEN as int);
    let nl = le32(s.normal.len() as u32);
    let dl = le32(s.duress.len() as u32);
    bytes::le32_round_trip(s.normal.len() as u32);
    bytes::le32_round_trip(s.duress.len() as u32);
    assert(file.take(4) =~= head.subrange(0, 4));
    assert(head.subrange(0, 4) =~= magic());
    assert(file[4] == head[4]);
    assert(head[4] == VAULT_VERSION);
    assert(file.subrange(5, 37) =~= head.subrange(5, 37));
    assert(head.subrange(5, 37) =~= s.normal_salt);
    assert(file.subrange(37, 69) =~= head.subrange(37, 69));
    assert(head.subrange(37, 69) =~= s.duress_salt);
    assert(file.subrange(69, 73) =~= head.subrange(69, 73));
    assert(head.subrange(69, 73) =~= nl);
    assert(file.subrange(73, 77) =~= head.subrange(73, 77));
    assert(head.subrange(73, 77) =~= dl);
}

/// Fills a section up with random bytes.
fn pad_to(section: &[u8], len: usize) -> (r: Vec<u8>)
    requires
        section@.len() <= len,
    ensures
        r@.len() == len,
        r@.take(section@.len() as int) == section@,
        drawn_bytes(r@.skip(section@.len() as int)),
{
    let mut r = bytes::copied(section);
    let pad = suite::fresh_bytes(len - section.len());
    bytes::append(&mut r, &pad);
    assert(r@.take(section@.len() as int) =~= section@);
    assert(r@.skip(section@.len() as int) =~= pad@);
    r
}

/// Builds a vault file from its salts and ciphertexts. Both sections come out
/// at the same length, so that nobody can tell which one is real.
pub fn build_vault_file(
    normal_salt: &[u8; 32],
    duress_salt: &[u8; 32],
    normal_ct: &[u8],
    duress_ct: &[u8],
) -> (r: Vec<u8>)
    ensures
        is_file(
            r@,
            (SectionsView {
                normal_salt: normal_salt@,
                duress_salt: duress_salt@,
                normal: normal_ct@,
                duress: duress_ct@,
            }),
        ),
        filled_at_random(
            r@,
            (SectionsView {
                normal_salt: normal_salt@,
                duress_salt: duress_salt@,
                normal: normal_ct@,
                duress: duress_ct@,
            }),
        ),
{
    let longer: usize = if normal_ct.len() >= duress_ct.len() {
        normal_ct.len()
    } else {
        duress_ct.len()
    };
    let normal_padded = pad_to(normal_ct, longer);
    let duress_padded = pad_to(duress_ct, longer);
    let mut out: Vec<u8> = Vec::new();
    bytes::append(&mut out, &vault_magic());
    out.push(VAULT_VERSION);
    bytes::append(&mut out, normal_salt);
    bytes::append(&mut out, duress_salt);
    bytes::append(&mut out, &bytes::u32_to_le(normal_ct.len() as u32));
    bytes::append(&mut out, &bytes::u32_to_le(duress_ct.len() as u32));
    let ghost head = out@;
    assert(head.len() == HEADER_LEN);
    bytes::append(&mut out, &normal_padded);
    bytes::append(&mut out, &duress_padded);
    proof {
        let h = HEADER_LEN as int;
        assert(out@.take(h) =~= head);
        assert(head =~= magic() + seq![VAULT_VERSION] + normal_salt@ + duress_salt@ + le32(
            normal_ct@.len() as u32,
        ) + le32(duress_ct@.len() as u32));
        assert(out@.subrange(h, h + normal_ct@.len()) =~= normal_padded@.take(
            normal_ct@.len() as int,
        ));
        assert(out@.subrange(h + longer, h + longer + duress_ct@.len()) =~= duress_padded@.take(
            duress_ct@.len() as int,
        ));
        assert(out@.subrange(h + normal_ct@.len(), h + longer) =~= normal_padded@.skip(
            normal_ct@.len() as int,
        ));
        assert(out@.subrange(h + longer + duress_ct@.len(), h + longer + longer)
            =~= duress_padded@.skip(duress_ct@.len() as int));
    }
    out
}

/// The bytes of a rollback marker.
pub open spec fn marker_bytes(key: Seq<u8>, sequence: u64) -> Seq<u8> {
    le64(sequence) + hmac_sha256(key, le64(sequence))
}

/// The sequence in a rollback marker, if it is one under `key`.
pub open spec fn marker_sequence(key: Seq<u8>, data: Seq<u8>) -> Option<u64> {
    if data.len() == MARKER_LEN && data.skip(8) == hmac_sha256(key, data.take(8)) {
        Some(from_le64(data.take(8)))
    } else {
        None
    }
}

/// The rollback marker of a sequence number. Reading it gives the number back.
pub fn write_sequence_marker(key: &SymKey, sequence: u64) -> (r: Vec<u8>)
    ensures
        r@ == marker_bytes(key@, sequence),
        marker_sequence(key@, r@) == Some(sequence),
{
    let mut r = bytes::u64_to_le(sequence);
    let ghost seq_bytes = r@;
    let mac = hmac_sign_raw(&key.0, &r);
    bytes::append(&mut r, &mac);
    proof {
        bytes::le64_round_trip(sequence);
        assert(r@.take(8) =~= seq_bytes);
        assert(r@.skip(8) =~= mac@);
    }
    r
}

/// The sequence in a rollback marker; nothing where the marker is cut, forged
/// or of another vault.
pub fn read_sequence_marker(key: &SymKey, data: &[u8]) -> (r: Option<u64>)
    ensures
        r == marker_sequence(key@, data@),
{
    if data.len() != MARKER_LEN {
        return None;
    }
    let seq_bytes = bytes::array_at::<8>(data, 0);
    let mac = bytes::array_at::<32>(data, 8);
    assert(seq_bytes@ =~= data@.take(8));
    assert(mac@ =~= data@.skip(8));
    if hmac_verify_raw(&key.0, &seq_bytes, &mac) {
        Some(bytes::u64_from_le(&seq_bytes))
    } else {
        None
    }
}

/// What a save puts on disk: the vault file, and the marker beside it.
pub struct SavedVault {
    pub file: Vec<u8>,
    pub marker: Vec<u8>,
}

/// The key of the conversation with a contact.
pub open spec fn conversation_key(master_key: Seq<u8>, contact_id: Seq<u8>) -> Seq<u8> {
    hkdf_sha256(None, master_key, "op4-conv-key-v1".spec_bytes() + contact_id, 32)
}

/// Where the first conversation with a contact stands.
pub open spec fn conversation_position(s: Seq<ConversationView>, contact_id: Seq<u8>) -> Option<int>
    decreases s.len(),
{
    if s.len() == 0 {
        None
    } else {
        match conversation_position(s.drop_last(), contact_id) {
            Some(i) => Some(i),
            None => if s.last().contact_id == contact_id {
                Some(s.len() - 1)
            } else {
                None
            },
        }
    }
}

/// A new conversation with a contact.
pub open spec fn fresh_conversation(id: Seq<u8>, contact_id: Seq<u8>) -> ConversationView {
    ConversationView {
        id,
        contact_id,
        ratchet_state_ct: seq![],
        message_log_ct: seq![],
        unread_count: 0,
        auto_delete_after: None,
    }
}

/// Whether `id`, the name that a conversation with a contact would get, came
/// from the generator; where there is one already, nothing is named.
pub open spec fn names_anew(s: Seq<ConversationView>, contact_id: Seq<u8>, id: Seq<u8>) -> bool {
    conversation_position(s, contact_id) is None ==> drawn_32(id)
}

/// The conversations once there is one with a contact.
pub open spec fn with_conversation(
    s: Seq<ConversationView>,
    contact_id: Seq<u8>,
    id: Seq<u8>,
) -> Seq<ConversationView> {
    if conversation_position(s, contact_id) is Some {
        s
    } else {
        s.push(fresh_conversation(id, contact_id))
    }
}

/// The position of the first conversation with a contact, spelled out.
pub proof fn conversation_position_is_first(s: Seq<ConversationView>, contact_id: Seq<u8>)
    ensures
        match conversation_position(s, contact_id) {
            Some(i) => {
                &&& 0 <= i < s.len()
                &&& s[i].contact_id == contact_id
                &&& forall|j: int| 0 <= j < i ==> (#[trigger] s[j]).contact_id != contact_id
            },
            None => forall|j: int| 0 <= j < s.len() ==> (#[trigger] s[j]).contact_id != contact_id,
        },
    decreases s.len(),
{
    if s.len() > 0 {
        conversation_position_is_first(s.drop_last(), contact_id);
        let t = s.drop_last();
        assert(forall|j: int| 0 <= j < t.len() ==> t[j] == s[j]);
        assert(s.last() == s[s.len() - 1]);
        match conversation_position(t, contact_id) {
            Some(i) => {
                assert forall|j: int| 0 <= j < i implies (#[trigger] s[j]).contact_id
                    != contact_id by {
                    assert(t[j].contact_id != contact_id);
                }
            },
            None => {
                assert forall|j: int| 0 <= j < s.len() - 1 implies (#[trigger] s[j]).contact_id
                    != contact_id by {
                    assert(t[j].contact_id != contact_id);
                }
            },
        }
    }
}

/// The position is the only index that is a first match.
proof fn lemma_position_at(s: Seq<ConversationView>, contact_id: Seq<u8>, i: int)
    requires
        0 <= i < s.len(),
        s[i].contact_id == contact_id,
        forall|j: int| 0 <= j < i ==> (#[trigger] s[j]).contact_id != contact_id,
    ensures
        conversation_position(s, contact_id) == Some(i),
{
    conversation_position_is_first(s, contact_id);
    match conversation_position(s, contact_id) {
        Some(k) => {
            if k < i {
                assert(s[k].contact_id != contact_id);
            } else if i < k {
                assert(s[i].contact_id != contact_id);
            }
        },
        None => {
            assert(s[i].contact_id != contact_id);
        },
    }
}

/// The messages in an encrypted log; none where there is no log or it cannot
/// be read.
pub open spec fn read_log(key: Seq<u8>, ct: Seq<u8>) -> Seq<StoredMessageView> {
    if ct.len() == 0 {
        seq![]
    } else {
        match opened(key, ct, "op4-msglog-v1".spec_bytes()) {
            None => seq![],
            Some(plain) => match take_list_spec::<StoredMessage>(plain) {
                Some((s, _)) => s,
                None => seq![],
            },
        }
    }
}

impl VaultView {
    /// The messages stored for a contact.
    pub open spec fn messages(self, contact_id: Seq<u8>) -> Seq<StoredMessageView> {
        match conversation_position(self.payload.conversations, contact_id) {
            None => seq![],
            Some(i) => read_log(
                conversation_key(self.master_key, contact_id),
                self.payload.conversations[i].message_log_ct,
            ),
        }
    }

    /// The vault with other conversations.
    pub open spec fn with_conversations(self, conversations: Seq<ConversationView>) -> VaultView {
        VaultView { payload: PayloadView { conversations, ..self.payload }, ..self }
    }

    /// The conversation with a contact; a new one has the given id.
    pub open spec fn conversation(self, contact_id: Seq<u8>, id: Seq<u8>) -> ConversationView {
        let all = with_conversation(self.payload.conversations, contact_id, id);
        all[conversation_position(all, contact_id)->0]
    }

    /// The vault with `c` in the place of the conversation with a contact.
    pub open spec fn with_replaced(
        self,
        contact_id: Seq<u8>,
        id: Seq<u8>,
        c: ConversationView,
    ) -> VaultView {
        let all = with_conversation(self.payload.conversations, contact_id, id);
        self.with_conversations(all.update(conversation_position(all, contact_id)->0, c))
    }

    /// The vault with another sequence.
    pub open spec fn at(self, sequence: u64) -> VaultView {
        VaultView { payload: PayloadView { sequence, ..self.payload }, ..self }
    }

    /// The vault that the next save writes.
    pub open spec fn next(self) -> VaultView {
        self.at((self.payload.sequence + 1) as u64)
    }

    /// Whether a file and its marker hold this vault, where `ct` is the
    /// encrypted payload.
    pub open spec fn held_as(self, s: SavedVault, ct: Seq<u8>) -> bool {
        &&& VaultPayload::fits(self.payload)
        &&& seals(self.master_key, VaultPayload::put_spec(self.payload), magic(), ct)
        &&& is_file(s.file@, self.sections(ct))
        &&& s.marker@ == marker_bytes(self.master_key, self.payload.sequence)
    }

    /// Whether a file and its marker hold this vault.
    pub open spec fn held_by(self, s: SavedVault) -> bool {
        exists|ct: Seq<u8>| #[trigger] self.held_as(s, ct)
    }

    /// Whether a file and its marker hold this vault under a nonce that came
    /// from the generator, and filled up with bytes from it.
    pub open spec fn freshly_held_by(self, s: SavedVault) -> bool {
        exists|ct: Seq<u8>|
            {
                &&& #[trigger] self.held_as(s, ct)
                &&& drawn_nonce(ct.take(AEAD_NONCE_LEN as int))
                &&& filled_at_random(s.file@, self.sections(ct))
            }
    }

    /// The sections of the file that a save makes, where `ct` is the encrypted
    /// payload.
    pub open spec fn sections(self, ct: Seq<u8>) -> SectionsView {
        SectionsView {
            normal_salt: self.normal_salt,
            duress_salt: self.duress_salt,
            normal: if self.is_duress {
                self.other_ct
            } else {
                ct
            },
            duress: if self.is_duress {
                ct
            } else {
                self.other_ct
            },
        }
    }
}

/// A save opens again: the key it was made with opens the same payload, in the
/// same role, and keeps the other section as it was. In the duress role the
/// key of the normal section must not open it.
pub proof fn saved_vault_opens(
    v: VaultView,
    ct: Seq<u8>,
    file: Seq<u8>,
    other_key: Seq<u8>,
)
    requires
        is_file(file, v.sections(ct)),
        seals(v.master_key, VaultPayload::put_spec(v.payload), magic(), ct),
        VaultPayload::fits(v.payload),
        v.normal_salt.len() == SALT_LEN,
        v.duress_salt.len() == SALT_LEN,
        ct.len() <= u32::MAX,
        v.other_ct.len() <= u32::MAX,
        v.is_duress ==> section_payload(other_key, v.other_ct) is None,
    ensures
        sections_of(file) == Ok::<SectionsView, VaultError>(v.sections(ct)),
        open_sections(
            v.sections(ct),
            if v.is_duress {
                other_key
            } else {
                v.master_key
            },
            if v.is_duress {
                v.master_key
            } else {
                other_key
            },
        ) == Ok::<VaultView, VaultError>(v),
{
    built_file_reads_back(file, v.sections(ct));
    lemma_sealed_section(v.master_key, v.payload, ct);
}

/// A section opens to the payload that was sealed in it.
proof fn lemma_sealed_section(key: Seq<u8>, p: PayloadView, ct: Seq<u8>)
    requires
        seals(key, VaultPayload::put_spec(p), magic(), ct),
        VaultPayload::fits(p),
    ensures
        section_payload(key, ct) == Some(p),
{
    let plain = VaultPayload::put_spec(p);
    VaultPayload::round_trip(p, seq![]);
    assert(plain + seq![] =~= plain);
}

/// A save in one role leaves the other role's section as it was: the passphrase
/// of the other role opens the payload `p` that stood there before, whatever
/// was saved. Where the duress section is the other one, its passphrase must
/// not open the normal section too.
pub proof fn other_role_is_kept(
    v: VaultView,
    ct: Seq<u8>,
    file: Seq<u8>,
    normal_key: Seq<u8>,
    duress_key: Seq<u8>,
    p: PayloadView,
)
    requires
        is_file(file, v.sections(ct)),
        v.normal_salt.len() == SALT_LEN,
        v.duress_salt.len() == SALT_LEN,
        ct.len() <= u32::MAX,
        v.other_ct.len() <= u32::MAX,
        if v.is_duress {
            section_payload(normal_key, v.other_ct) == Some(p)
        } else {
            section_payload(duress_key, v.other_ct) == Some(p) && section_payload(normal_key, ct)
                is None
        },
    ensures
        sections_of(file) == Ok::<SectionsView, VaultError>(v.sections(ct)),
        open_sections(v.sections(ct), normal_key, duress_key) == Ok::<VaultView, VaultError>(
            VaultView {
                payload: p,
                is_duress: !v.is_duress,
                master_key: if v.is_duress {
                    normal_key
                } else {
                    duress_key
                },
                other_ct: ct,
                ..v
            },
        ),
{
    built_file_reads_back(file, v.sections(ct));
}

/// Unlocking, saving and unlocking again: the same passphrase opens what was
/// saved, in the role that it had before, and the marker does not take it for
/// an old copy. In between the payload may have changed in any way.
pub proof fn saved_vault_unlocks(
    data: Seq<u8>,
    passphrase: Seq<u8>,
    params: Argon2Params,
    v: VaultView,
    w: VaultView,
    s: SavedVault,
)
    requires
        unlock_spec(data, passphrase, params) == Ok::<VaultView, VaultError>(v),
        w == (VaultView { payload: w.payload, ..v }),
        w.held_by(s),
        s.file@.len() <= HEADER_LEN + 2 * u32::MAX,
    ensures
        unlock_spec(s.file@, passphrase, params) == Ok::<VaultView, VaultError>(w),
        !rolled_back(w, Some(s.marker@)),
{
    let ct = choose|ct: Seq<u8>| #[trigger] w.held_as(s, ct);
    let normal_key = passphrase_key(passphrase, v.normal_salt, params);
    let duress_key = passphrase_key(passphrase, v.duress_salt, params);
    saved_vault_opens(
        w,
        ct,
        s.file@,
        if v.is_duress {
            normal_key
        } else {
            duress_key
        },
    );
    bytes::le64_round_trip(w.payload.sequence);
    let head = le64(w.payload.sequence);
    if s.marker@.len() == MARKER_LEN {
        assert(s.marker@.take(8) =~= head);
    }
}

/// The decoy outlasts every save of the normal section: whatever payload was
/// saved, the duress passphrase still opens the decoy that stood beside it.
pub proof fn saved_vault_keeps_decoy(
    v: VaultView,
    s: SavedVault,
    duress_passphrase: Seq<u8>,
    params: Argon2Params,
)
    requires
        !v.is_duress,
        v.normal_salt.len() == SALT_LEN,
        v.duress_salt.len() == SALT_LEN,
        v.held_by(s),
        s.file@.len() <= HEADER_LEN + 2 * u32::MAX,
        derive_error(duress_passphrase, params) is None,
        section_payload(passphrase_key(duress_passphrase, v.duress_salt, params), v.other_ct)
            == Some(PayloadView::empty_at("[duress]"@)),
    ensures
        opens_decoy(s.file@, duress_passphrase, params, v),
{
    let ct = choose|ct: Seq<u8>| #[trigger] v.held_as(s, ct);
    built_file_reads_back(s.file@, v.sections(ct));
    let normal_key = passphrase_key(duress_passphrase, v.normal_salt, params);
    if section_payload(normal_key, ct) is None {
        other_role_is_kept(
            v,
            ct,
            s.file@,
            normal_key,
            passphrase_key(duress_passphrase, v.duress_salt, params),
            PayloadView::empty_at("[duress]"@),
        );
    }
}

/// A passphrase whose keys open neither section of a vault file is refused.
pub proof fn wrong_passphrase_is_refused(
    file: Seq<u8>,
    s: SectionsView,
    passphrase: Seq<u8>,
    params: Argon2Params,
)
    requires
        sections_of(file) == Ok::<SectionsView, VaultError>(s),
        derive_error(passphrase, params) is None,
        section_payload(passphrase_key(passphrase, s.normal_salt, params), s.normal) is None,
        section_payload(passphrase_key(passphrase, s.duress_salt, params), s.duress) is None,
    ensures
        unlock_spec(file, passphrase, params) == Err::<VaultView, VaultError>(
            VaultError::InvalidPassphrase,
        ),
{
}

/// A marker is read back under its own key, and a vault is an old copy exactly
/// where a later save wrote the marker beside it.
pub proof fn markers_are_read_back(v: VaultView, sequence: u64)
    requires
        hmac_sha256(v.master_key, le64(sequence)).len() == 32,
    ensures
        marker_sequence(v.master_key, marker_bytes(v.master_key, sequence)) == Some(sequence),
        rolled_back(v, Some(marker_bytes(v.master_key, sequence))) <==> v.payload.sequence
            < sequence,
        !rolled_back(v, None),
{
    bytes::le64_round_trip(sequence);
    let m = marker_bytes(v.master_key, sequence);
    assert(m.take(8) =~= le64(sequence));
    assert(m.skip(8) =~= hmac_sha256(v.master_key, le64(sequence)));
}

/// A log that was sealed under the key of its conversation is read back as it
/// was.
pub proof fn sealed_logs_are_read_back(key: Seq<u8>, log: Seq<StoredMessageView>, ct: Seq<u8>)
    requires
        list_fits::<StoredMessage>(log),
        seals(key, put_list_spec::<StoredMessage>(log), "op4-msglog-v1".spec_bytes(), ct),
    ensures
        read_log(key, ct) == log,
        read_log(key, seq![]).len() == 0,
{
    let b = put_list_spec::<StoredMessage>(log);
    list_round_trip::<StoredMessage>(log, seq![]);
    assert(b + seq![] =~= b);
}

/// A vault whose sequence lies below that of a marker under its key is an old
/// copy; one at or above it is not.
pub proof fn rollback_is_detected(v: VaultView, marker: Seq<u8>, sequence: u64)
    requires
        marker_sequence(v.master_key, marker) == Some(sequence),
    ensures
        rolled_back(v, Some(marker)) <==> v.payload.sequence < sequence,
{
}

/// Whether a vault is an older copy than the marker beside it says.
pub open spec fn rolled_back(v: VaultView, marker: Option<Seq<u8>>) -> bool {
    match marker {
        None => false,
        Some(data) => match marker_sequence(v.master_key, data) {
            Some(sequence) => v.payload.sequence < sequence,
            None => false,
        },
    }
}

impl VaultUnlocked {
    /// A new vault for two passphrases, and its file.
    pub fn create(normal_passphrase: &[u8], duress_passphrase: &[u8]) -> (r: Result<
        (Self, Vec<u8>),
        VaultError,
    >)
        ensures
            created(
                r,
                normal_passphrase@,
                duress_passphrase@,
                Argon2Params { m_cost: 65536, t_cost: 3, p_cost: 1 },
            ),
    {
        Self::create_with_params(normal_passphrase, duress_passphrase, &Argon2Params::default())
    }

    /// A new vault with given Argon2 costs, and its file. The normal section
    /// is empty; the duress section holds nothing but an address that says
    /// what it is.
    pub fn create_with_params(
        normal_passphrase: &[u8],
        duress_passphrase: &[u8],
        params: &Argon2Params,
    ) -> (r: Result<(Self, Vec<u8>), VaultError>)
        ensures
            created(r, normal_passphrase@, duress_passphrase@, *params),
    {
        let normal_salt = suite::fresh_32();
        let duress_salt = suite::fresh_32();
        let normal_key = match argon2id_derive(normal_passphrase, &normal_salt, params) {
            Ok(k) => k,
            Err(e) => {
                return Err(VaultError::Crypto(e));
            },
        };
        let duress_key = match argon2id_derive(duress_passphrase, &duress_salt, params) {
            Ok(k) => k,
            Err(e) => {
                return Err(VaultError::Crypto(e));
            },
        };
        let payload = VaultPayload::default();
        let duress_payload = VaultPayload::empty_at("[duress]".to_owned());
        let mut duress_plain: Vec<u8> = Vec::new();
        duress_payload.put(&mut duress_plain);
        let mut plain: Vec<u8> = Vec::new();
        payload.put(&mut plain);
        proof {
            assert(duress_plain@ =~= VaultPayload::put_spec(duress_payload@));
            assert(plain@ =~= VaultPayload::put_spec(payload@));
            lemma_label_len();
            lemma_empty_payload_len(duress_payload@.nym_address);
            lemma_empty_payload_len(payload@.nym_address);
        }
        let duress_ct = match aead_encrypt(&duress_key, &duress_plain, &vault_magic()) {
            Ok(ct) => ct,
            Err(e) => {
                return Err(VaultError::Crypto(e));
            },
        };
        let normal_ct = match aead_encrypt(&normal_key, &plain, &vault_magic()) {
            Ok(ct) => ct,
            Err(e) => {
                return Err(VaultError::Crypto(e));
            },
        };
        let file = build_vault_file(&normal_salt, &duress_salt, &normal_ct, &duress_ct);
        let vault = VaultUnlocked {
            payload,
            is_duress: false,
            master_key: normal_key,
            normal_salt,
            duress_salt,
            other_ct: duress_ct,
        };
        proof {
            let d = VaultView {
                payload: duress_payload@,
                is_duress: true,
                master_key: duress_key@,
                other_ct: normal_ct@,
                ..vault@
            };
            let under_duress = passphrase_key(duress_passphrase@, normal_salt@, *params);
            assert(vault@.sections(normal_ct@) == d.sections(duress_ct@));
            lemma_sealed_section(duress_key@, duress_payload@, duress_ct@);
            saved_vault_opens(
                vault@,
                normal_ct@,
                file@,
                passphrase_key(normal_passphrase@, duress_salt@, *params),
            );
            if section_payload(under_duress, normal_ct@) is None {
                saved_vault_opens(d, duress_ct@, file@, under_duress);
            }
        }
        Ok((vault, file))
    }

    /// Opens a vault file with either passphrase.
    pub fn unlock(data: &[u8], passphrase: &[u8]) -> (r: Result<Self, VaultError>)
        ensures
            match r {
                Ok(v) => unlock_spec(
                    data@,
                    passphrase@,
                    Argon2Params { m_cost: 65536, t_cost: 3, p_cost: 1 },
                ) == Ok::<VaultView, VaultError>(v@),
                Err(e) => unlock_spec(
                    data@,
                    passphrase@,
                    Argon2Params { m_cost: 65536, t_cost: 3, p_cost: 1 },
                ) == Err::<VaultView, VaultError>(e),
            },
    {
        Self::unlock_with_params(data, passphrase, &Argon2Params::default())
    }

    /// Opens a vault file with either passphrase and given Argon2 costs, which
    /// must be those it was made with. Both sections are tried before the
    /// result is looked at, whichever passphrase it is.
    pub fn unlock_with_params(data: &[u8], passphrase: &[u8], params: &Argon2Params) -> (r: Result<
        Self,
        VaultError,
    >)
        ensures
            match r {
                Ok(v) => unlock_spec(data@, passphrase@, *params) == Ok::<VaultView, VaultError>(
                    v@,
                ),
                Err(e) => unlock_spec(data@, passphrase@, *params) == Err::<VaultView, VaultError>(
                    e,
                ),
            },
    {
        let header = match parse_header(data) {
            Ok(h) => h,
            Err(e) => {
                return Err(e);
            },
        };
        let normal_key = match argon2id_derive(passphrase, &header.normal_salt, params) {
            Ok(k) => k,
            Err(e) => {
                return Err(VaultError::Crypto(e));
            },
        };
        let duress_key = match argon2id_derive(passphrase, &header.duress_salt, params) {
            Ok(k) => k,
            Err(e) => {
                return Err(VaultError::Crypto(e));
            },
        };
        assert(data@.len() == data.len());
        let normal_raw = vstd::slice::slice_subrange(
            data,
            header.normal_section_offset,
            header.normal_section_offset + header.normal_ct_len,
        );
        let duress_raw = vstd::slice::slice_subrange(
            data,
            header.duress_section_offset,
            header.duress_section_offset + header.duress_ct_len,
        );
        let normal_result = try_decrypt_section(&normal_key, normal_raw);
        let duress_result = try_decrypt_section(&duress_key, duress_raw);
        if let Some(payload) = normal_result {
            Ok(
                VaultUnlocked {
                    payload,
                    is_duress: false,
                    master_key: normal_key,
                    normal_salt: header.normal_salt,
                    duress_salt: header.duress_salt,
                    other_ct: bytes::copied(duress_raw),
                },
            )
        } else if let Some(payload) = duress_result {
            Ok(
                VaultUnlocked {
                    payload,
                    is_duress: true,
                    master_key: duress_key,
                    normal_salt: header.normal_salt,
                    duress_salt: header.duress_salt,
                    other_ct: bytes::copied(normal_raw),
                },
            )
        } else {
            Err(VaultError::InvalidPassphrase)
        }
    }

    /// The key that encrypts what belongs to the conversation with a contact.
    pub fn derive_conversation_key(&self, conversation_id: &[u8; 32]) -> (r: SymKey)
        ensures
            r@ == conversation_key(self@.master_key, conversation_id@),
    {
        let mut info = bytes::copied("op4-conv-key-v1".as_bytes());
        bytes::append(&mut info, conversation_id);
        SymKey(hkdf_32(&self.master_key.0, None, &info))
    }

    /// Where the conversation with a contact stands.
    pub fn find_conversation_by_contact(&self, contact_id: &[u8; 32]) -> (r: Option<usize>)
        ensures
            match r {
                Some(i) => conversation_position(self@.payload.conversations, contact_id@) == Some(
                    i as int,
                ) && i < self.payload.conversations@.len(),
                None => conversation_position(self@.payload.conversations, contact_id@) is None,
            },
    {
        let ghost all = self@.payload.conversations;
        let mut i: usize = 0;
        while i < self.payload.conversations.len()
            invariant
                i <= self.payload.conversations@.len(),
                all == models(self.payload.conversations@),
                forall|j: int| 0 <= j < i ==> (#[trigger] all[j]).contact_id != contact_id@,
            decreases self.payload.conversations@.len() - i,
        {
            if bytes::same_bytes(&self.payload.conversations[i].contact_id, contact_id) {
                assert(all[i as int].contact_id == contact_id@);
                proof {
                    lemma_position_at(all, contact_id@, i as int);
                }
                return Some(i);
            }
            assert(all[i as int].contact_id != contact_id@);
            i = i + 1;
        }
        proof {
            conversation_position_is_first(all, contact_id@);
        }
        None
    }

    /// Where the conversation with a contact stands, once it has been made if
    /// there was none.
    pub fn conversation_index(&mut self, contact_id: &[u8; 32]) -> (r: usize)
        ensures
            exists|id: Seq<u8>|
                names_anew(old(self)@.payload.conversations, contact_id@, id) && final(self)@
                    == old(self)@.with_conversations(
                    #[trigger] with_conversation(
                        old(self)@.payload.conversations,
                        contact_id@,
                        id,
                    ),
                ),
            conversation_position(final(self)@.payload.conversations, contact_id@) == Some(
                r as int,
            ),
            r < final(self).payload.conversations@.len(),
    {
        let ghost all = self@.payload.conversations;
        if let Some(i) = self.find_conversation_by_contact(contact_id) {
            assert(self@ =~= old(self)@.with_conversations(
                with_conversation(all, contact_id@, seq![]),
            ));
            return i;
        }
        let id = suite::fresh_32();
        let i: usize = self.payload.conversations.len();
        self.payload.conversations.push(
            ConversationMeta {
                id,
                contact_id: *contact_id,
                ratchet_state_ct: Vec::new(),
                message_log_ct: Vec::new(),
                unread_count: 0,
                auto_delete_after: None,
            },
        );
        proof {
            let after = self@.payload.conversations;
            conversation_position_is_first(all, contact_id@);
            assert(after =~= all.push(fresh_conversation(id@, contact_id@)));
            assert forall|j: int| 0 <= j < i implies (#[trigger] after[j]).contact_id
                != contact_id@ by {
                assert(after[j] == all[j]);
            }
            lemma_position_at(after, contact_id@, i as int);
            assert(self@ =~= old(self)@.with_conversations(
                with_conversation(all, contact_id@, id@),
            ));
        }
        i
    }

    /// The conversation with a contact, made if there was none.
    pub fn get_or_create_conversation(&mut self, contact_id: [u8; 32]) -> (r: &mut ConversationMeta)
        ensures
            exists|id: Seq<u8>|
                names_anew(old(self)@.payload.conversations, contact_id@, id) && r@ == (
                #[trigger] old(self)@.conversation(contact_id@, id)) && final(self)@
                    == old(self)@.with_replaced(contact_id@, id, final(r)@),
    {
        let i = self.conversation_index(&contact_id);
        proof {
            let id = choose|id: Seq<u8>|
                names_anew(old(self)@.payload.conversations, contact_id@, id) && self@ == old(
                    self,
                )@.with_conversations(
                    #[trigger] with_conversation(old(self)@.payload.conversations, contact_id@, id),
                );
            let all = self.payload.conversations@;
            assert(old(self)@.conversation(contact_id@, id) == all[i as int]@);
            assert forall|x: ConversationMeta|
                #[trigger] models(all.update(i as int, x)) == models(all).update(i as int, x@) by {
                assert(models(all.update(i as int, x)) =~= models(all).update(i as int, x@));
            }
        }
        &mut self.payload.conversations[i]
    }

    /// The messages stored for a contact.
    pub fn load_messages(&self, contact_id: &[u8; 32]) -> (r: Vec<StoredMessage>)
        ensures
            models(r@) == self@.messages(contact_id@),
    {
        let none: Vec<StoredMessage> = Vec::new();
        assert(models(none@) =~= seq![]);
        let i = match self.find_conversation_by_contact(contact_id) {
            Some(i) => i,
            None => {
                return none;
            },
        };
        let ct = &self.payload.conversations[i].message_log_ct;
        if ct.len() == 0 {
            return none;
        }
        let key = self.derive_conversation_key(contact_id);
        match aead_decrypt(&key, ct, "op4-msglog-v1".as_bytes()) {
            Err(_) => none,
            Ok(plain) => match take_list::<StoredMessage>(&plain) {
                Some((s, _)) => s,
                None => none,
            },
        }
    }

    /// Stores the messages of a contact. Loading gives them back.
    pub fn save_messages(&mut self, contact_id: &[u8; 32], messages: &Vec<StoredMessage>) -> (r:
        Result<(), VaultError>)
        ensures
            match r {
                Ok(()) => {
                    &&& sealable(put_list_spec::<StoredMessage>(models(messages@)).len())
                    &&& final(self)@.messages(contact_id@) == models(messages@)
                    &&& exists|id: Seq<u8>, ct: Seq<u8>|
                        {
                            &&& names_anew(old(self)@.payload.conversations, contact_id@, id)
                            &&& drawn_nonce(ct.take(AEAD_NONCE_LEN as int))
                            &&& #[trigger] seals(
                                conversation_key(old(self)@.master_key, contact_id@),
                                put_list_spec::<StoredMessage>(models(messages@)),
                                "op4-msglog-v1".spec_bytes(),
                                ct,
                            )
                            &&& final(self)@ == old(self)@.with_replaced(
                                contact_id@,
                                id,
                                ConversationView {
                                    message_log_ct: ct,
                                    ..#[trigger] old(self)@.conversation(contact_id@, id)
                                },
                            )
                        }
                },
                Err(e) => {
                    &&& final(self)@ == old(self)@
                    &&& e == VaultError::Crypto(CryptoError::AeadEncrypt)
                    &&& !sealable(put_list_spec::<StoredMessage>(models(messages@)).len())
                },
            },
    {
        let key = self.derive_conversation_key(contact_id);
        let mut plain: Vec<u8> = Vec::new();
        put_list(&mut plain, messages);
        assert(plain@ =~= put_list_spec::<StoredMessage>(models(messages@)));
        let ct = match aead_encrypt(&key, &plain, "op4-msglog-v1".as_bytes()) {
            Ok(ct) => ct,
            Err(e) => {
                return Err(VaultError::Crypto(e));
            },
        };
        let i = self.conversation_index(contact_id);
        let ghost all = self@.payload.conversations;
        let ghost log = ct@;
        let ghost id = choose|id: Seq<u8>|
            names_anew(old(self)@.payload.conversations, contact_id@, id) && self@ == old(
                self,
            )@.with_conversations(
                #[trigger] with_conversation(old(self)@.payload.conversations, contact_id@, id),
            );
        self.payload.conversations[i].message_log_ct = ct;
        proof {
            let updated = all.update(
                i as int,
                ConversationView { message_log_ct: log, ..all[i as int] },
            );
            assert(self@.payload.conversations =~= updated);
            conversation_position_is_first(all, contact_id@);
            assert forall|j: int| 0 <= j < i implies (#[trigger] updated[j]).contact_id
                != contact_id@ by {
                assert(updated[j] == all[j]);
            }
            lemma_position_at(updated, contact_id@, i as int);
            crate::codec::list_round_trip::<StoredMessage>(models(messages@), seq![]);
            assert(plain@ + seq![] =~= plain@);
            assert(self@ =~= old(self)@.with_conversations(updated));
            assert(old(self)@.conversation(contact_id@, id) == all[i as int]);
            assert(self@ == old(self)@.with_replaced(
                contact_id@,
                id,
                ConversationView {
                    message_log_ct: log,
                    ..old(self)@.conversation(contact_id@, id)
                },
            ));
        }
        Ok(())
    }

    /// Makes the file and the rollback marker of the next save. The section
    /// that is not open stays as it was, so that the other passphrase goes on
    /// working.
    pub fn save(&mut self) -> (r: Result<SavedVault, VaultError>)
        requires
            old(self)@.payload.sequence < u64::MAX,
        ensures
            final(self)@ == old(self)@.next(),
            match r {
                Ok(s) => {
                    &&& final(self)@.held_by(s)
                    &&& final(self)@.freshly_held_by(s)
                    &&& !rolled_back(final(self)@, Some(s.marker@))
                },
                Err(e) => e == VaultError::Crypto(CryptoError::AeadEncrypt) && !sealable(
                    VaultPayload::put_spec(final(self)@.payload).len(),
                ),
            },
    {
        self.payload.sequence = self.payload.sequence + 1;
        let mut plain: Vec<u8> = Vec::new();
        self.payload.put(&mut plain);
        assert(plain@ =~= VaultPayload::put_spec(self@.payload));
        let ct = match aead_encrypt(&self.master_key, &plain, &vault_magic()) {
            Ok(ct) => ct,
            Err(e) => {
                return Err(VaultError::Crypto(e));
            },
        };
        let file = if self.is_duress {
            build_vault_file(&self.normal_salt, &self.duress_salt, &self.other_ct, &ct)
        } else {
            build_vault_file(&self.normal_salt, &self.duress_salt, &ct, &self.other_ct)
        };
        let marker = write_sequence_marker(&self.master_key, self.payload.sequence);
        assert(is_file(file@, self@.sections(ct@)));
        let saved = SavedVault { file, marker };
        assert(self@.held_as(saved, ct@));
        Ok(saved)
    }

    /// Whether the vault is an older copy than the marker beside it says.
    /// Without a marker that is one of this vault, it is not.
    pub fn check_rollback(&self, marker: Option<&[u8]>) -> (r: bool)
        ensures
            r == rolled_back(
                self@,
                match marker {
                    Some(data) => Some(data@),
                    None => None,
                },
            ),
    {
        match marker {
            None => false,
            Some(data) => match read_sequence_marker(&self.master_key, data) {
                Some(sequence) => self.payload.sequence < sequence,
                None => false,
            },
        }
    }
}

/// Whether the duress passphrase of the vault `v` opens the decoy in its file:
/// an empty payload at an address that says what it is. The passphrase must not
/// happen to open the normal section too.
pub open spec fn opens_decoy(
    file: Seq<u8>,
    duress_passphrase: Seq<u8>,
    params: Argon2Params,
    v: VaultView,
) -> bool {
    &&& sections_of(file) matches Ok(s)
    &&& section_payload(passphrase_key(duress_passphrase, v.normal_salt, params), s.normal) is None
        ==> unlock_spec(file, duress_passphrase, params) == Ok::<VaultView, VaultError>(
        VaultView {
            payload: PayloadView::empty_at("[duress]"@),
            is_duress: true,
            master_key: passphrase_key(duress_passphrase, v.duress_salt, params),
            other_ct: s.normal,
            ..v
        },
    )
}

/// What making a vault comes to: either passphrase opens the file, the normal
/// one to the vault itself and the duress one to the decoy, unless the duress
/// passphrase happens to open the normal section too.
pub open spec fn created(
    r: Result<(VaultUnlocked, Vec<u8>), VaultError>,
    normal_passphrase: Seq<u8>,
    duress_passphrase: Seq<u8>,
    params: Argon2Params,
) -> bool {
    match r {
        Ok((v, file)) => {
            &&& derive_error(normal_passphrase, params) is None
            &&& derive_error(duress_passphrase, params) is None
            &&& v@.payload == PayloadView::empty_at(seq![])
            &&& !v@.is_duress
            &&& unlock_spec(file@, normal_passphrase, params) == Ok::<VaultView, VaultError>(v@)
            &&& drawn_32(v@.normal_salt)
            &&& drawn_32(v@.duress_salt)
            &&& sections_of(file@) matches Ok(s)
            &&& drawn_nonce(s.normal.take(AEAD_NONCE_LEN as int))
            &&& drawn_nonce(s.duress.take(AEAD_NONCE_LEN as int))
            &&& filled_at_random(file@, s)
            &&& section_payload(
                passphrase_key(duress_passphrase, v@.duress_salt, params),
                v@.other_ct,
            ) == Some(PayloadView::empty_at("[duress]"@))
            &&& opens_decoy(file@, duress_passphrase, params, v@)
        },
        Err(e) => match derive_error(normal_passphrase, params) {
            Some(c) => e == VaultError::Crypto(c),
            None => derive_error(duress_passphrase, params) matches Some(c) && e
                == VaultError::Crypto(c),
        },
    }
}

/// The texts of an empty payload are short.
pub proof fn lemma_label_len()
    ensures
        vstd::utf8::encode_utf8("[duress]"@).len() <= 32,
        vstd::utf8::encode_utf8(Seq::<char>::empty()).len() <= 32,
        vstd::utf8::encode_utf8("127.0.0.1:9050"@).len() <= 32,
{
    reveal_strlit("[duress]");
    reveal_strlit("127.0.0.1:9050");
    vstd::utf8::is_ascii_chars_encode_utf8("[duress]"@);
    vstd::utf8::is_ascii_chars_encode_utf8(Seq::<char>::empty());
    vstd::utf8::is_ascii_chars_encode_utf8("127.0.0.1:9050"@);
}

/// The record of an empty payload is short.
proof fn lemma_empty_payload_len(nym_address: Seq<char>)
    requires
        vstd::utf8::encode_utf8(nym_address).len() <= 32,
        vstd::utf8::encode_utf8("127.0.0.1:9050"@).len() <= 32,
    ensures
        VaultPayload::put_spec(PayloadView::empty_at(nym_address)).len() <= 300,
{
    crate::codec::varint_len(vstd::utf8::encode_utf8(nym_address).len() as u64);
    crate::codec::varint_len(vstd::utf8::encode_utf8("127.0.0.1:9050"@).len() as u64);
    crate::codec::varint_len(0);
}

} // verus!
