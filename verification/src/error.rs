//! The errors of the library and the text that each shows to the user.
use vstd::prelude::*;
use vstd::std_specs::convert::FromSpecImpl;
use vstd::string::StringExecFns;

verus! {

/// `std::io::Error`, carried as it comes.
#[verifier::external_type_specification]
#[verifier::external_body]
pub struct ExIoError(std::io::Error);

/// `postcard::Error`, carried as it comes.
#[verifier::external_type_specification]
#[verifier::external_body]
pub struct ExPostcardError(postcard::Error);

pub type Result<T> = core::result::Result<T, AppError>;

#[derive(Debug)]
pub enum AppError {
    Crypto(CryptoError),
    Vault(VaultError),
    Network(NetworkError),
    Identity(IdentityError),
    Hardening(HardeningError),
    Io(std::io::Error),
    Postcard(postcard::Error),
}

#[derive(Debug)]
pub enum CryptoError {
    HkdfExpand,
    AeadEncrypt,
    AeadDecrypt,
    Argon2Params,
    Argon2Hash,
    KeyParse,
    KemEncap,
    KemDecap,
    SigVerify,
    NoChainKey,
    NoDhrKey,
    TooManySkipped,
    /// A record does not decode (distinct from a failed decryption).
    Serialize,
}

#[derive(Debug)]
pub enum VaultError {
    InvalidPassphrase,
    InvalidMagic,
    InvalidVersion,
    Corrupt,
    Io(std::io::Error),
    Crypto(CryptoError),
}

#[derive(Debug)]
pub enum NetworkError {
    NymInit(String),
    NymSend(String),
    NymRecv(String),
    TorUnavailable,
}

#[derive(Debug)]
pub enum IdentityError {
    InvalidBase58,
    InvalidFormat,
    SignatureVerification,
    KeyChangeTooFrequent,
}

#[derive(Debug)]
pub enum HardeningError {
    PrctlFailed(i32),
    SetrlimitFailed(i32),
    SeccompBuild(String),
    SeccompInstall(String),
    DebuggerDetected,
    InjectionDetected,
    IntegrityCheckFailed,
    ApkSignatureMismatch,
    EntropyUnavailable,
}

/// The quoted and escaped form of `s`.
pub uninterp spec fn quoted_text(s: Seq<char>) -> Seq<char>;

/// `core::fmt::Debug` of a string: its quoted and escaped form.
#[verifier::external_body]
fn quoted(s: &str) -> (r: String)
    ensures
        r@ == quoted_text(s@),
{
    format!("{s:?}")
}

/// `core::fmt::Debug` of an I/O error. Nothing is promised of the text.
#[verifier::external_body]
fn io_debug(e: &std::io::Error) -> (r: String) {
    format!("{e:?}")
}

/// `core::fmt::Display` of an I/O error. Nothing is promised of the text.
#[verifier::external_body]
fn io_text(e: &std::io::Error) -> (r: String) {
    format!("{e}")
}

/// `core::fmt::Display` of a record error. Nothing is promised of the text.
#[verifier::external_body]
fn postcard_text(e: &postcard::Error) -> (r: String) {
    format!("{e}")
}

impl CryptoError {
    /// The variant's name.
    pub open spec fn name_spec(self) -> Seq<char> {
        match self {
            CryptoError::HkdfExpand => "HkdfExpand"@,
            CryptoError::AeadEncrypt => "AeadEncrypt"@,
            CryptoError::AeadDecrypt => "AeadDecrypt"@,
            CryptoError::Argon2Params => "Argon2Params"@,
            CryptoError::Argon2Hash => "Argon2Hash"@,
            CryptoError::KeyParse => "KeyParse"@,
            CryptoError::KemEncap => "KemEncap"@,
            CryptoError::KemDecap => "KemDecap"@,
            CryptoError::SigVerify => "SigVerify"@,
            CryptoError::NoChainKey => "NoChainKey"@,
            CryptoError::NoDhrKey => "NoDhrKey"@,
            CryptoError::TooManySkipped => "TooManySkipped"@,
            CryptoError::Serialize => "Serialize"@,
        }
    }

    /// The variant's name.
    pub fn name(&self) -> (r: &'static str)
        ensures
            r@ == self.name_spec(),
    {
        match self {
            CryptoError::HkdfExpand => "HkdfExpand",
            CryptoError::AeadEncrypt => "AeadEncrypt",
            CryptoError::AeadDecrypt => "AeadDecrypt",
            CryptoError::Argon2Params => "Argon2Params",
            CryptoError::Argon2Hash => "Argon2Hash",
            CryptoError::KeyParse => "KeyParse",
            CryptoError::KemEncap => "KemEncap",
            CryptoError::KemDecap => "KemDecap",
            CryptoError::SigVerify => "SigVerify",
            CryptoError::NoChainKey => "NoChainKey",
            CryptoError::NoDhrKey => "NoDhrKey",
            CryptoError::TooManySkipped => "TooManySkipped",
            CryptoError::Serialize => "Serialize",
        }
    }
}

/// Whether `words` can be what `e` says of itself in its debug form.
pub closed spec fn io_debug_says(e: std::io::Error, words: String) -> bool {
    call_ensures(io_debug, (&e,), words)
}

/// Whether `words` can be what `e` says of itself.
pub closed spec fn io_says(e: std::io::Error, words: String) -> bool {
    call_ensures(io_text, (&e,), words)
}

/// Whether `words` can be what `e` says of itself.
pub closed spec fn postcard_says(e: postcard::Error, words: String) -> bool {
    call_ensures(postcard_text, (&e,), words)
}

/// Whether `text` describes the vault error `e`; the words of an I/O error
/// are its own.
pub open spec fn describes_vault(e: VaultError, text: Seq<char>) -> bool {
    match e {
        VaultError::InvalidPassphrase => text == "InvalidPassphrase"@,
        VaultError::InvalidMagic => text == "InvalidMagic"@,
        VaultError::InvalidVersion => text == "InvalidVersion"@,
        VaultError::Corrupt => text == "Corrupt"@,
        VaultError::Io(io) => exists|words: String| #[trigger]
            io_debug_says(io, words) && text == "Io("@ + words@ + ")"@,
        VaultError::Crypto(c) => text == "Crypto("@ + c.name_spec() + ")"@,
    }
}

impl VaultError {
    /// The variant, with what it holds.
    pub fn describe(&self) -> (r: String)
        ensures
            describes_vault(*self, r@),
    {
        match self {
            VaultError::InvalidPassphrase => "InvalidPassphrase".to_owned(),
            VaultError::InvalidMagic => "InvalidMagic".to_owned(),
            VaultError::InvalidVersion => "InvalidVersion".to_owned(),
            VaultError::Corrupt => "Corrupt".to_owned(),
            VaultError::Io(e) => {
                let words = io_debug(e);
                assert(io_debug_says(*e, words));
                "Io(".to_owned().concat(words.as_str()).concat(")")
            },
            VaultError::Crypto(c) => "Crypto(".to_owned().concat(c.name()).concat(")"),
        }
    }
}

impl NetworkError {
    /// The variant, with the quoted text it holds.
    pub open spec fn describe_spec(self) -> Seq<char> {
        match self {
            NetworkError::NymInit(s) => "NymInit("@ + quoted_text(s@) + ")"@,
            NetworkError::NymSend(s) => "NymSend("@ + quoted_text(s@) + ")"@,
            NetworkError::NymRecv(s) => "NymRecv("@ + quoted_text(s@) + ")"@,
            NetworkError::TorUnavailable => "TorUnavailable"@,
        }
    }

    /// The variant, with the quoted text it holds.
    pub fn describe(&self) -> (r: String)
        ensures
            r@ == self.describe_spec(),
    {
        match self {
            NetworkError::NymInit(s) => {
                let q = quoted(s.as_str());
                "NymInit(".to_owned().concat(q.as_str()).concat(")")
            },
            NetworkError::NymSend(s) => {
                let q = quoted(s.as_str());
                "NymSend(".to_owned().concat(q.as_str()).concat(")")
            },
            NetworkError::NymRecv(s) => {
                let q = quoted(s.as_str());
                "NymRecv(".to_owned().concat(q.as_str()).concat(")")
            },
            NetworkError::TorUnavailable => "TorUnavailable".to_owned(),
        }
    }
}

impl IdentityError {
    /// The variant's name.
    pub open spec fn name_spec(self) -> Seq<char> {
        match self {
            IdentityError::InvalidBase58 => "InvalidBase58"@,
            IdentityError::InvalidFormat => "InvalidFormat"@,
            IdentityError::SignatureVerification => "SignatureVerification"@,
            IdentityError::KeyChangeTooFrequent => "KeyChangeTooFrequent"@,
        }
    }

    /// The variant's name.
    pub fn name(&self) -> (r: &'static str)
        ensures
            r@ == self.name_spec(),
    {
        match self {
            IdentityError::InvalidBase58 => "InvalidBase58",
            IdentityError::InvalidFormat => "InvalidFormat",
            IdentityError::SignatureVerification => "SignatureVerification",
            IdentityError::KeyChangeTooFrequent => "KeyChangeTooFrequent",
        }
    }
}

impl HardeningError {
    /// The text shown for a failed check. It never says which check failed,
    /// as that would tell an attacker what to bypass next.
    pub fn to_string(&self) -> (r: String)
        ensures
            r@ == "security check failed"@,
    {
        "security check failed".to_owned()
    }
}

/// Whether `text` is what is shown for `e`; the words of an outside error are
/// its own.
pub open spec fn shows(e: AppError, text: Seq<char>) -> bool {
    match e {
        AppError::Crypto(c) => text == "crypto error: "@ + c.name_spec(),
        AppError::Vault(v) => exists|d: Seq<char>|
            describes_vault(v, d) && text == #[trigger] ("vault error: "@ + d),
        AppError::Network(n) => text == "network error: "@ + n.describe_spec(),
        AppError::Identity(i) => text == "identity error: "@ + i.name_spec(),
        AppError::Hardening(_) => text == "hardening error: "@ + "security check failed"@,
        AppError::Io(io) => exists|d: String| #[trigger]
            io_says(io, d) && text == "I/O error: "@ + d@,
        AppError::Postcard(p) => exists|d: String| #[trigger]
            postcard_says(p, d) && text == "serialization error: "@ + d@,
    }
}

/// Failed checks look alike: the text does not tell which of them failed.
pub proof fn failed_checks_look_alike(
    a: HardeningError,
    b: HardeningError,
    x: Seq<char>,
    y: Seq<char>,
)
    requires
        shows(AppError::Hardening(a), x),
        shows(AppError::Hardening(b), y),
    ensures
        x == y,
{
}

impl AppError {
    /// The text shown for the error: its kind, then its details.
    pub fn to_string(&self) -> (r: String)
        ensures
            shows(*self, r@),
    {
        match self {
            AppError::Crypto(e) => "crypto error: ".to_owned().concat(e.name()),
            AppError::Vault(e) => {
                let d = e.describe();
                "vault error: ".to_owned().concat(d.as_str())
            },
            AppError::Network(e) => {
                let d = e.describe();
                "network error: ".to_owned().concat(d.as_str())
            },
            AppError::Identity(e) => "identity error: ".to_owned().concat(e.name()),
            AppError::Hardening(e) => {
                let d = e.to_string();
                "hardening error: ".to_owned().concat(d.as_str())
            },
            AppError::Io(e) => {
                let d = io_text(e);
                assert(io_says(*e, d));
                "I/O error: ".to_owned().concat(d.as_str())
            },
            AppError::Postcard(e) => {
                let d = postcard_text(e);
                assert(postcard_says(*e, d));
                "serialization error: ".to_owned().concat(d.as_str())
            },
        }
    }
}

impl From<std::io::Error> for AppError {
    fn from(e: std::io::Error) -> (r: Self) {
        AppError::Io(e)
    }
}

impl FromSpecImpl<std::io::Error> for AppError {
    open spec fn obeys_from_spec() -> bool {
        true
    }

    open spec fn from_spec(e: std::io::Error) -> Self {
        AppError::Io(e)
    }
}

impl From<postcard::Error> for AppError {
    fn from(e: postcard::Error) -> (r: Self) {
        AppError::Postcard(e)
    }
}

impl FromSpecImpl<postcard::Error> for AppError {
    open spec fn obeys_from_spec() -> bool {
        true
    }

    open spec fn from_spec(e: postcard::Error) -> Self {
        AppError::Postcard(e)
    }
}

impl From<CryptoError> for AppError {
    fn from(e: CryptoError) -> (r: Self) {
        AppError::Crypto(e)
    }
}

impl FromSpecImpl<CryptoError> for AppError {
    open spec fn obeys_from_spec() -> bool {
        true
    }

    open spec fn from_spec(e: CryptoError) -> Self {
        AppError::Crypto(e)
    }
}

impl From<VaultError> for AppError {
    fn from(e: VaultError) -> (r: Self) {
        AppError::Vault(e)
    }
}

impl FromSpecImpl<VaultError> for AppError {
    open spec fn obeys_from_spec() -> bool {
        true
    }

    open spec fn from_spec(e: VaultError) -> Self {
        AppError::Vault(e)
    }
}

impl From<NetworkError> for AppError {
    fn from(e: NetworkError) -> (r: Self) {
        AppError::Network(e)
    }
}

impl FromSpecImpl<NetworkError> for AppError {
    open spec fn obeys_from_spec() -> bool {
        true
    }

    open spec fn from_spec(e: NetworkError) -> Self {
        AppError::Network(e)
    }
}

impl From<IdentityError> for AppError {
    fn from(e: IdentityError) -> (r: Self) {
        AppError::Identity(e)
    }
}

impl FromSpecImpl<IdentityError> for AppError {
    open spec fn obeys_from_spec() -> bool {
        true
    }

    open spec fn from_spec(e: IdentityError) -> Self {
        AppError::Identity(e)
    }
}

impl From<HardeningError> for AppError {
    fn from(e: HardeningError) -> (r: Self) {
        AppError::Hardening(e)
    }
}

impl FromSpecImpl<HardeningError> for AppError {
    open spec fn obeys_from_spec() -> bool {
        true
    }

    open spec fn from_spec(e: HardeningError) -> Self {
        AppError::Hardening(e)
    }
}

impl From<std::io::Error> for VaultError {
    fn from(e: std::io::Error) -> (r: Self) {
        VaultError::Io(e)
    }
}

impl FromSpecImpl<std::io::Error> for VaultError {
    open spec fn obeys_from_spec() -> bool {
        true
    }

    open spec fn from_spec(e: std::io::Error) -> Self {
        VaultError::Io(e)
    }
}

impl From<CryptoError> for VaultError {
    fn from(e: CryptoError) -> (r: Self) {
        VaultError::Crypto(e)
    }
}

impl FromSpecImpl<CryptoError> for VaultError {
    open spec fn obeys_from_spec() -> bool {
        true
    }

    open spec fn from_spec(e: CryptoError) -> Self {
        VaultError::Crypto(e)
    }
}

} // verus!
