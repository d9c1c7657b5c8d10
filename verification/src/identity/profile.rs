//! Contact codes, bootstrap codes and stored contacts.
use crate::bytes;
use crate::codec::{models, Record};
use crate::crypto::keys::{BundleView, PublicKeyBundle};
use crate::crypto::suite;
use crate::crypto::suite::sha256;
use crate::error::IdentityError;
use crate::text;
use crate::text::{strip_spec, trim_spec, trim_start_spec};
use vstd::prelude::*;
use vstd::string::StringExecFns;

verus! {

/// What a bootstrap code starts with.
pub const BOOTSTRAP_PREFIX: &'static str = "op4b2:";

/// The Base58 text of `b`.
pub uninterp spec fn base58_text(b: Seq<u8>) -> Seq<char>;

/// The bytes behind the Base58 text `s`, if it is one.
pub uninterp spec fn base58_bytes(s: Seq<char>) -> Option<Seq<u8>>;

/// The characters of the Base58 alphabet: digits and letters without `0`,
/// `O`, `I` and `l`.
pub open spec fn is_base58_char(c: char) -> bool {
    ('1' <= c <= '9') || ('A' <= c <= 'Z' && c != 'I' && c != 'O') || ('a' <= c <= 'z' && c != 'l')
}

/// Whether a text is made of the characters of the alphabet.
pub open spec fn in_base58(s: Seq<char>) -> bool {
    forall|i: int| 0 <= i < s.len() ==> is_base58_char(#[trigger] s[i])
}

/// `bs58::encode` with the Bitcoin alphabet. Decoding gives the bytes back,
/// and every character is in the alphabet.
#[verifier::external_body]
fn base58_encode(b: &[u8]) -> (r: String)
    ensures
        r@ == base58_text(b@),
        base58_bytes(r@) == Some(b@),
        in_base58(r@),
{
    bs58::encode(b).into_string()
}

/// `bs58::decode` with the Bitcoin alphabet. A text with a character outside
/// the alphabet is refused.
#[verifier::external_body]
fn base58_decode(s: &str) -> (r: Option<Vec<u8>>)
    ensures
        match r {
            Some(b) => base58_bytes(s@) == Some(b@),
            None => base58_bytes(s@) is None,
        },
        r is Some ==> in_base58(s@),
{
    bs58::decode(s).into_vec().ok()
}

/// A contact code small enough for a QR code: where the peer is reached, the
/// keys to seal a request to it, and the digest that the bundle it answers
/// with must have.
#[derive(Debug, Clone)]
pub struct BootstrapCode {
    /// Onion address of the peer.
    pub nym_address: String,
    /// Tells which request an answer belongs to.
    pub ed25519_vk: [u8; 32],
    /// The request for the bundle is sealed to this key.
    pub x25519_pub: [u8; 32],
    /// SHA-256 over the key material of the bundle.
    pub fingerprint_prefix: [u8; 32],
}

/// What a [`BootstrapCode`] means.
#[verifier::ext_equal]
pub struct BootstrapView {
    pub nym_address: Seq<char>,
    pub ed25519_vk: Seq<u8>,
    pub x25519_pub: Seq<u8>,
    pub fingerprint: Seq<u8>,
}

/// The fields of a bootstrap code, in the order of its record.
pub type BootstrapRecord = (String, ([u8; 32], ([u8; 32], [u8; 32])));

impl View for BootstrapCode {
    type V = BootstrapView;

    open spec fn view(&self) -> BootstrapView {
        BootstrapView {
            nym_address: self.nym_address@,
            ed25519_vk: self.ed25519_vk@,
            x25519_pub: self.x25519_pub@,
            fingerprint: self.fingerprint_prefix@,
        }
    }
}

impl BootstrapView {
    /// The record of the code.
    pub open spec fn bytes(self) -> Seq<u8> {
        BootstrapRecord::put_spec(
            (self.nym_address, (self.ed25519_vk, (self.x25519_pub, self.fingerprint))),
        )
    }

    /// The text of the code.
    pub open spec fn text(self) -> Seq<char> {
        BOOTSTRAP_PREFIX@ + base58_text(self.bytes())
    }
}

/// What a bootstrap code's text stands for.
pub open spec fn bootstrap_read(s: Seq<char>) -> Result<BootstrapView, IdentityError> {
    match strip_spec(trim_spec(s), BOOTSTRAP_PREFIX@) {
        None => Err(IdentityError::InvalidFormat),
        Some(inner) => match base58_bytes(inner) {
            None => Err(IdentityError::InvalidBase58),
            Some(b) => match BootstrapRecord::take_spec(b) {
                None => Err(IdentityError::InvalidFormat),
                Some((f, _)) => Ok(
                    BootstrapView {
                        nym_address: f.0,
                        ed25519_vk: f.1.0,
                        x25519_pub: f.1.1.0,
                        fingerprint: f.1.1.1,
                    },
                ),
            },
        },
    }
}

impl BootstrapCode {
    /// The code of a bundle.
    pub fn from_bundle(bundle: &PublicKeyBundle) -> (r: Self)
        ensures
            r@ == (BootstrapView {
                nym_address: bundle@.nym_address,
                ed25519_vk: bundle@.ed25519_vk,
                x25519_pub: bundle@.x25519_pub,
                fingerprint: sha256(bundle@.fingerprint_input()),
            }),
    {
        let digest = bundle.digest();
        BootstrapCode {
            nym_address: bundle.nym_address.clone(),
            ed25519_vk: bundle.ed25519_vk,
            x25519_pub: bundle.x25519_pub,
            fingerprint_prefix: digest,
        }
    }

    /// The text of the code, behind its prefix. Reading it gives the code back.
    pub fn encode(&self) -> (r: String)
        ensures
            r@ == self@.text(),
            bootstrap_read(r@) == Ok::<BootstrapView, IdentityError>(self@),
    {
        let mut out: Vec<u8> = Vec::new();
        self.nym_address.put(&mut out);
        self.ed25519_vk.put(&mut out);
        self.x25519_pub.put(&mut out);
        self.fingerprint_prefix.put(&mut out);
        assert(out@ =~= self@.bytes());
        let inner = base58_encode(&out);
        let r = BOOTSTRAP_PREFIX.to_owned().concat(inner.as_str());
        proof {
            reveal_strlit("op4b2:");
            let p = BOOTSTRAP_PREFIX@;
            let m = (
                self@.nym_address,
                (self@.ed25519_vk, (self@.x25519_pub, self@.fingerprint)),
            );
            assert(r@[0] == 'o');
            assert(trim_start_spec(r@) == r@);
            assert(!text::is_space(r@.last())) by {
                if inner@.len() > 0 {
                    assert(r@.last() == inner@[inner@.len() - 1]);
                    assert(is_base58_char(inner@[inner@.len() - 1]));
                } else {
                    assert(r@.last() == p[5]);
                }
            }
            assert(trim_spec(r@) == r@);
            assert(p =~= r@.subrange(0, p.len() as int));
            assert(r@.skip(p.len() as int) =~= inner@);
            BootstrapRecord::round_trip(m, seq![]);
            assert(self@.bytes() + seq![] =~= self@.bytes());
        }
        r
    }

    /// Reads the text of a code, with white space round it or without.
    pub fn decode(s: &str) -> (r: Result<Self, IdentityError>)
        ensures
            match r {
                Ok(c) => bootstrap_read(s@) == Ok::<BootstrapView, IdentityError>(c@),
                Err(e) => bootstrap_read(s@) == Err::<BootstrapView, IdentityError>(e),
            },
            strip_spec(trim_spec(s@), BOOTSTRAP_PREFIX@) matches Some(inner) && !in_base58(inner)
                ==> r == Err::<Self, IdentityError>(IdentityError::InvalidBase58),
    {
        let trimmed = text::trim(s);
        let inner = match text::strip_prefix(trimmed.as_str(), BOOTSTRAP_PREFIX) {
            Some(t) => t,
            None => {
                return Err(IdentityError::InvalidFormat);
            },
        };
        let b = match base58_decode(inner.as_str()) {
            Some(b) => b,
            None => {
                return Err(IdentityError::InvalidBase58);
            },
        };
        match BootstrapRecord::take(&b) {
            Some(((nym_address, (ed25519_vk, (x25519_pub, fingerprint_prefix))), _)) => Ok(
                BootstrapCode { nym_address, ed25519_vk, x25519_pub, fingerprint_prefix },
            ),
            None => Err(IdentityError::InvalidFormat),
        }
    }

    /// Whether the text looks like a bootstrap code.
    pub fn is_bootstrap(s: &str) -> (r: bool)
        ensures
            r == looks_like_bootstrap(s@),
    {
        let t = text::trim_start(s);
        text::starts_with(t.as_str(), BOOTSTRAP_PREFIX)
    }
}

/// Whether a text looks like a bootstrap code.
pub open spec fn looks_like_bootstrap(s: Seq<char>) -> bool {
    BOOTSTRAP_PREFIX@.is_prefix_of(trim_start_spec(s))
}

/// A text in the Base58 alphabet, such as a contact code, is never taken for a
/// bootstrap code.
pub proof fn codes_are_told_apart(s: Seq<char>)
    requires
        in_base58(s),
    ensures
        !looks_like_bootstrap(s),
{
    reveal_strlit("op4b2:");
    if s.len() > 0 {
        assert(is_base58_char(s[0]));
        assert(trim_start_spec(s) == s);
        if looks_like_bootstrap(s) {
            assert(s[5] == BOOTSTRAP_PREFIX@[5]);
            assert(is_base58_char(s[5]));
        }
    }
}

/// What users exchange out of band: a whole bundle as Base58 text.
pub struct ContactCode(pub PublicKeyBundle);

/// What a contact code's text stands for.
pub open spec fn contact_read(s: Seq<char>) -> Result<BundleView, IdentityError> {
    match base58_bytes(s) {
        None => Err(IdentityError::InvalidBase58),
        Some(b) => match PublicKeyBundle::take_spec(b) {
            None => Err(IdentityError::InvalidFormat),
            Some((m, _)) => Ok(m),
        },
    }
}

impl ContactCode {
    /// The text of the code. Reading it gives the bundle back.
    pub fn encode(&self) -> (r: String)
        ensures
            r@ == base58_text(self.0@.bytes()),
            contact_read(r@) == Ok::<BundleView, IdentityError>(self.0@),
            in_base58(r@),
            !looks_like_bootstrap(r@),
    {
        let b = self.0.to_bytes();
        proof {
            PublicKeyBundle::round_trip(self.0@, seq![]);
            assert(self.0@.bytes() + seq![] =~= self.0@.bytes());
        }
        let r = base58_encode(&b);
        proof {
            codes_are_told_apart(r@);
        }
        r
    }

    /// Reads the text of a code. One with a character outside the alphabet is
    /// no Base58 text.
    pub fn decode(s: &str) -> (r: Result<Self, IdentityError>)
        ensures
            match r {
                Ok(c) => contact_read(s@) == Ok::<BundleView, IdentityError>(c.0@),
                Err(e) => contact_read(s@) == Err::<BundleView, IdentityError>(e),
            },
            !in_base58(s@) ==> r == Err::<ContactCode, IdentityError>(
                IdentityError::InvalidBase58,
            ),
    {
        match base58_decode(s) {
            None => Err(IdentityError::InvalidBase58),
            Some(b) => match PublicKeyBundle::take(&b) {
                Some((bundle, _)) => Ok(ContactCode(bundle)),
                None => Err(IdentityError::InvalidFormat),
            },
        }
    }

    /// The bundle.
    pub fn bundle(&self) -> (r: &PublicKeyBundle)
        ensures
            *r == self.0,
    {
        &self.0
    }

    /// The fingerprint of the bundle.
    pub fn fingerprint(&self) -> (r: String)
        ensures
            r@ == self.0@.fingerprint(),
    {
        self.0.fingerprint()
    }
}

/// A contact in the vault.
#[derive(Debug, Clone)]
pub struct StoredContact {
    /// SHA-256 of the record of the bundle that the contact was added with.
    pub id: [u8; 32],
    pub bundle: PublicKeyBundle,
    pub display_name: String,
    /// Whether the user has compared the fingerprint out of band.
    pub verified: bool,
    /// Sequence of the last key change.
    pub last_key_seq: u64,
    /// Vault sequence when the contact was added.
    pub added_seq: u64,
}

/// What a [`StoredContact`] means.
#[verifier::ext_equal]
pub struct ContactView {
    pub id: Seq<u8>,
    pub bundle: BundleView,
    pub display_name: Seq<char>,
    pub verified: bool,
    pub last_key_seq: u64,
    pub added_seq: u64,
}

/// The fields of a contact, in the order of its record.
pub type ContactRecord = ([u8; 32], (PublicKeyBundle, (String, (bool, (u64, u64)))));

impl View for StoredContact {
    type V = ContactView;

    open spec fn view(&self) -> ContactView {
        ContactView {
            id: self.id@,
            bundle: self.bundle@,
            display_name: self.display_name@,
            verified: self.verified,
            last_key_seq: self.last_key_seq,
            added_seq: self.added_seq,
        }
    }
}

impl ContactView {
    /// The fields in the order of the record.
    pub open spec fn fields(self) -> <ContactRecord as Record>::Model {
        (
            self.id,
            (
                self.bundle,
                (self.display_name, (self.verified, (self.last_key_seq, self.added_seq))),
            ),
        )
    }
}

impl Record for StoredContact {
    type Model = ContactView;

    open spec fn model(&self) -> ContactView {
        self@
    }

    open spec fn put_spec(m: ContactView) -> Seq<u8> {
        ContactRecord::put_spec(m.fields())
    }

    open spec fn take_spec(b: Seq<u8>) -> Option<(ContactView, Seq<u8>)> {
        match ContactRecord::take_spec(b) {
            Some((f, rest)) => Some(
                (
                    ContactView {
                        id: f.0,
                        bundle: f.1.0,
                        display_name: f.1.1.0,
                        verified: f.1.1.1.0,
                        last_key_seq: f.1.1.1.1.0,
                        added_seq: f.1.1.1.1.1,
                    },
                    rest,
                ),
            ),
            None => None,
        }
    }

    open spec fn fits(m: ContactView) -> bool {
        ContactRecord::fits(m.fields())
    }

    fn put(&self, out: &mut Vec<u8>) {
        self.id.put(out);
        self.bundle.put(out);
        self.display_name.put(out);
        self.verified.put(out);
        self.last_key_seq.put(out);
        self.added_seq.put(out);
        assert(out@ =~= old(out)@ + Self::put_spec(self.model()));
    }

    fn take(b: &[u8]) -> (r: Option<(Self, &[u8])>) {
        match ContactRecord::take(b) {
            Some(
                ((id, (bundle, (display_name, (verified, (last_key_seq, added_seq))))), rest),
            ) => Some(
                (
                    StoredContact { id, bundle, display_name, verified, last_key_seq, added_seq },
                    rest,
                ),
            ),
            None => None,
        }
    }

    proof fn round_trip(m: ContactView, rest: Seq<u8>) {
        ContactRecord::round_trip(m.fields(), rest);
    }
}

/// A list without everything from `n` on.
fn first<T>(v: Vec<T>, n: usize) -> (r: Vec<T>)
    requires
        n <= v@.len(),
    ensures
        r@ == v@.take(n as int),
{
    let mut r = v;
    r.truncate(n);
    assert(r@ =~= v@.take(n as int));
    r
}

impl StoredContact {
    /// A new contact: not verified, and named after the record of its bundle.
    pub fn new(bundle: PublicKeyBundle, display_name: String, seq: u64) -> (r: Self)
        ensures
            r@ == (ContactView {
                id: sha256(bundle@.bytes()),
                bundle: bundle@,
                display_name: display_name@,
                verified: false,
                last_key_seq: 0,
                added_seq: seq,
            }),
    {
        let id = suite::sha256_digest(&bundle.to_bytes());
        StoredContact {
            id,
            bundle,
            display_name,
            verified: false,
            last_key_seq: 0,
            added_seq: seq,
        }
    }

    /// Replaces the contact's one-time prekeys by fresh ones, as many as have
    /// both a key and a name, and says how many that is.
    pub fn apply_opk_refresh(&mut self, opk_pubs: Vec<[u8; 32]>, opk_ids: Vec<[u8; 4]>) -> (r:
        usize)
        ensures
            r == (if opk_pubs@.len() <= opk_ids@.len() {
                opk_pubs@.len()
            } else {
                opk_ids@.len()
            }),
            final(self)@ == (ContactView {
                bundle: BundleView {
                    opk_pubs: models(opk_pubs@).take(r as int),
                    opk_ids: models(opk_ids@).take(r as int),
                    ..old(self)@.bundle
                },
                ..old(self)@
            }),
    {
        let count: usize = if opk_pubs.len() <= opk_ids.len() {
            opk_pubs.len()
        } else {
            opk_ids.len()
        };
        let ghost pubs = opk_pubs@;
        let ghost ids = opk_ids@;
        self.bundle.opk_pubs = first(opk_pubs, count);
        self.bundle.opk_ids = first(opk_ids, count);
        assert(models(self.bundle.opk_pubs@) =~= models(pubs).take(count as int));
        assert(models(self.bundle.opk_ids@) =~= models(ids).take(count as int));
        count
    }
}

/// `std::time::Instant`, carried as it comes.
#[verifier::external_type_specification]
#[verifier::external_body]
pub struct ExInstant(std::time::Instant);

/// `std::time::Instant::now`. Nothing is promised of it.
#[verifier::external_body]
fn instant_now() -> (r: std::time::Instant) {
    std::time::Instant::now()
}

/// Whole seconds of `std::time::Instant::elapsed`. Nothing is promised of
/// them.
#[verifier::external_body]
fn elapsed_secs(t: &std::time::Instant) -> (r: u64) {
    t.elapsed().as_secs()
}

/// Seconds that must pass between two key changes.
pub const KEY_CHANGE_INTERVAL: u64 = 86400;

/// The first change may happen at any time, a later one after the interval.
pub open spec fn interval_passed(since_last: Option<u64>) -> bool {
    match since_last {
        None => true,
        Some(secs) => secs >= KEY_CHANGE_INTERVAL,
    }
}

/// Whether a key may change, given the seconds since the last change, if there
/// was one.
pub fn change_allowed(since_last: Option<u64>) -> (r: bool)
    ensures
        r == interval_passed(since_last),
{
    match since_last {
        None => true,
        Some(secs) => secs >= KEY_CHANGE_INTERVAL,
    }
}

/// Limits key changes to one in 24 hours of monotonic time.
pub struct KeyChangeGuard {
    last_changed: Option<std::time::Instant>,
}

impl KeyChangeGuard {
    /// Whether a change has been recorded.
    pub open spec fn has_changed(&self) -> bool {
        self.moment() is Some
    }

    /// The moment of the last change.
    pub closed spec fn moment(&self) -> Option<std::time::Instant> {
        self.last_changed
    }

    /// Whether the recorded moment is the one that the clock gave.
    pub closed spec fn recorded_now(&self) -> bool {
        self.last_changed matches Some(t) && call_ensures(instant_now, (), t)
    }

    /// Whether `since_last` can be the time since the last change: the seconds
    /// that the clock gave for the recorded moment, or none where no change is
    /// recorded.
    pub closed spec fn reads(&self, since_last: Option<u64>) -> bool {
        match (self.last_changed, since_last) {
            (None, None) => true,
            (Some(t), Some(secs)) => call_ensures(elapsed_secs, (&t,), secs),
            _ => false,
        }
    }

    pub fn new() -> (r: Self)
        ensures
            !r.has_changed(),
    {
        KeyChangeGuard { last_changed: None }
    }

    /// Whether a key may change now. The first change is always allowed; a
    /// later one is allowed if and only if the clock, read for the recorded
    /// moment, shows that the interval has passed.
    pub fn can_change_key(&self) -> (r: bool)
        ensures
            !self.has_changed() ==> r,
            exists|since_last: Option<u64>|
                {
                    &&& #[trigger] self.reads(since_last)
                    &&& since_last is Some == self.has_changed()
                    &&& r == interval_passed(since_last)
                },
    {
        let since_last = self.since_last();
        assert(self.reads(since_last));
        change_allowed(since_last)
    }

    /// Records a change at the moment `now`, given the seconds since the last
    /// change, if there was one. Too early a change is refused and leaves the
    /// recorded moment as it was.
    pub fn record_change_at(&mut self, since_last: Option<u64>, now: std::time::Instant) -> (r:
        Result<(), IdentityError>)
        ensures
            if interval_passed(since_last) {
                r is Ok && final(self).moment() == Some(now)
            } else {
                r == Err::<(), IdentityError>(IdentityError::KeyChangeTooFrequent) && *final(self)
                    == *old(self)
            },
    {
        if !change_allowed(since_last) {
            return Err(IdentityError::KeyChangeTooFrequent);
        }
        self.last_changed = Some(now);
        Ok(())
    }

    /// How long ago the last change was, by the clock.
    fn since_last(&self) -> (r: Option<u64>)
        ensures
            self.reads(r),
            r is Some == self.has_changed(),
    {
        match &self.last_changed {
            None => None,
            Some(t) => Some(elapsed_secs(t)),
        }
    }

    /// Records a change where the interval has passed since the last, by the
    /// clock. Refuses it otherwise and stays as it was.
    pub fn record_change(&mut self) -> (r: Result<(), IdentityError>)
        ensures
            exists|since_last: Option<u64>|
                {
                    &&& #[trigger] old(self).reads(since_last)
                    &&& since_last is Some == old(self).has_changed()
                    &&& r is Ok == interval_passed(since_last)
                },
            match r {
                Ok(()) => final(self).has_changed() && final(self).recorded_now(),
                Err(e) => {
                    &&& old(self).has_changed()
                    &&& *final(self) == *old(self)
                    &&& e == IdentityError::KeyChangeTooFrequent
                },
            },
    {
        let since_last = self.since_last();
        assert(old(self).reads(since_last));
        self.record_change_at(since_last, instant_now())
    }
}

/// What the clock can say of a guard: nothing before the first change, and some
/// number of seconds ever after. So a change that was recorded blocks the next
/// until the clock shows that the interval has passed.
pub proof fn recorded_change_blocks(guard: KeyChangeGuard, since_last: Option<u64>)
    requires
        guard.reads(since_last),
    ensures
        since_last is Some == guard.has_changed(),
        guard.has_changed() ==> (interval_passed(since_last) <==> since_last->0
            >= KEY_CHANGE_INTERVAL),
        !guard.has_changed() ==> interval_passed(since_last),
{
}

impl Default for KeyChangeGuard {
    fn default() -> (r: Self)
        ensures
            !r.has_changed(),
    {
        Self::new()
    }
}

} // verus!
