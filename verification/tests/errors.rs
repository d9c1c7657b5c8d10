use op4_core::error::{
    AppError, CryptoError, HardeningError, IdentityError, NetworkError, VaultError,
};

#[test]
fn hardening_error_display_is_generic() {
    // All variants must produce the same opaque message.
    let variants: Vec<HardeningError> = vec![
        HardeningError::PrctlFailed(1),
        HardeningError::SetrlimitFailed(2),
        HardeningError::SeccompBuild("x".into()),
        HardeningError::SeccompInstall("y".into()),
        HardeningError::DebuggerDetected,
        HardeningError::InjectionDetected,
        HardeningError::IntegrityCheckFailed,
        HardeningError::ApkSignatureMismatch,
        HardeningError::EntropyUnavailable,
    ];
    for v in variants {
        assert_eq!(v.to_string(), "security check failed");
    }
}

#[test]
fn app_error_display_crypto() {
    let e = AppError::Crypto(CryptoError::AeadDecrypt);
    assert!(e.to_string().starts_with("crypto error:"));
}

#[test]
fn app_error_display_vault() {
    let e = AppError::Vault(VaultError::InvalidPassphrase);
    assert!(e.to_string().starts_with("vault error:"));
}

#[test]
fn app_error_display_network() {
    let e = AppError::Network(NetworkError::TorUnavailable);
    assert!(e.to_string().starts_with("network error:"));
}

#[test]
fn app_error_display_identity() {
    let e = AppError::Identity(IdentityError::InvalidBase58);
    assert!(e.to_string().starts_with("identity error:"));
}

#[test]
fn app_error_display_hardening() {
    let e = AppError::Hardening(HardeningError::DebuggerDetected);
    assert!(e.to_string().starts_with("hardening error:"));
}

#[test]
fn app_error_display_io() {
    let e = AppError::Io(std::io::Error::new(std::io::ErrorKind::NotFound, "gone"));
    assert!(e.to_string().starts_with("I/O error:"));
}

#[test]
fn app_error_display_postcard() {
    let e = AppError::Postcard(postcard::Error::SerializeBufferFull);
    assert!(e.to_string().starts_with("serialization error:"));
}

#[test]
fn from_io_error_for_app_error() {
    let io_err = std::io::Error::new(std::io::ErrorKind::BrokenPipe, "pipe");
    let app: AppError = io_err.into();
    assert!(matches!(app, AppError::Io(_)));
}

#[test]
fn from_postcard_error_for_app_error() {
    let pc_err = postcard::Error::SerializeBufferFull;
    let app: AppError = pc_err.into();
    assert!(matches!(app, AppError::Postcard(_)));
}

#[test]
fn from_crypto_error_for_app_error() {
    let app: AppError = CryptoError::AeadEncrypt.into();
    assert!(matches!(app, AppError::Crypto(_)));
}

#[test]
fn from_vault_error_for_app_error() {
    let app: AppError = VaultError::InvalidMagic.into();
    assert!(matches!(app, AppError::Vault(_)));
}

#[test]
fn from_network_error_for_app_error() {
    let app: AppError = NetworkError::TorUnavailable.into();
    assert!(matches!(app, AppError::Network(_)));
}

#[test]
fn from_identity_error_for_app_error() {
    let app: AppError = IdentityError::InvalidFormat.into();
    assert!(matches!(app, AppError::Identity(_)));
}

#[test]
fn from_hardening_error_for_app_error() {
    let app: AppError = HardeningError::EntropyUnavailable.into();
    assert!(matches!(app, AppError::Hardening(_)));
}

#[test]
fn from_io_error_for_vault_error() {
    let io_err = std::io::Error::new(std::io::ErrorKind::NotFound, "missing");
    let ve: VaultError = io_err.into();
    assert!(matches!(ve, VaultError::Io(_)));
}

#[test]
fn from_crypto_error_for_vault_error() {
    let ve: VaultError = CryptoError::KeyParse.into();
    assert!(matches!(ve, VaultError::Crypto(_)));
}

#[test]
fn errors_have_exact_texts() {
    let io = || std::io::Error::new(std::io::ErrorKind::NotFound, "gone");
    let cases = vec![
        (AppError::Crypto(CryptoError::HkdfExpand), "crypto error: HkdfExpand".to_string()),
        (AppError::Vault(VaultError::Corrupt), "vault error: Corrupt".to_string()),
        (
            AppError::Vault(VaultError::Crypto(CryptoError::KeyParse)),
            "vault error: Crypto(KeyParse)".to_string(),
        ),
        (AppError::Vault(VaultError::Io(io())), format!("vault error: Io({:?})", io())),
        (
            AppError::Network(NetworkError::NymSend("no \"route\"\n".into())),
            format!("network error: NymSend({:?})", "no \"route\"\n"),
        ),
        (
            AppError::Network(NetworkError::NymInit("a".into())),
            "network error: NymInit(\"a\")".to_string(),
        ),
        (
            AppError::Network(NetworkError::NymRecv("b".into())),
            "network error: NymRecv(\"b\")".to_string(),
        ),
        (
            AppError::Identity(IdentityError::KeyChangeTooFrequent),
            "identity error: KeyChangeTooFrequent".to_string(),
        ),
        (
            AppError::Hardening(HardeningError::PrctlFailed(4)),
            "hardening error: security check failed".to_string(),
        ),
        (AppError::Io(io()), "I/O error: gone".to_string()),
        (
            AppError::Postcard(postcard::Error::SerializeBufferFull),
            format!("serialization error: {}", postcard::Error::SerializeBufferFull),
        ),
    ];
    for (e, expected) in cases {
        assert_eq!(e.to_string(), expected);
    }
}
