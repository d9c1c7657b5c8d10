use op4_core::error::NetworkError;
use op4_core::network::frame::{cover_target, frame_len, read_frame, write_frame, MAX_FRAME_BYTES};
use op4_core::network::socks::{parse_target, Dialog, SocksError, Stage};
use op4_core::network::tor::{
    add_onion_command, authenticate_command, base64_encode_standard, bytes_to_hex, cookie_path,
    derive_onion_key, extract_cookie_path, is_authenticated, line_byte, offers_cookie, onion_address,
    onion_ikm, parse_service_id, response_line, service_nickname, LineStep, ResponseStep,
    LISTEN_PORT,
};
use sha2::{Digest, Sha512};

// Frames

#[test]
fn frames_read_back() {
    let frame = write_frame(b"hello");
    assert_eq!(frame, b"\x00\x00\x00\x05hello");
    let mut stream = frame.clone();
    stream.extend_from_slice(b"rest");
    assert_eq!(read_frame(&stream), Some(b"hello".to_vec()));
    assert_eq!(read_frame(&frame[..8]), None);
    assert_eq!(read_frame(&frame[..3]), None);
}

#[test]
fn oversized_frames_are_not_read() {
    assert_eq!(frame_len(&(MAX_FRAME_BYTES as u32).to_be_bytes()), Some(65536));
    assert_eq!(frame_len(&(MAX_FRAME_BYTES as u32 + 1).to_be_bytes()), None);
}

#[test]
fn cover_traffic_goes_to_a_contact_or_home() {
    let own = "me".to_string();
    let contacts = vec!["a".to_string(), "b".to_string()];
    assert_eq!(cover_target(&own, &contacts, true, 1), "b");
    assert_eq!(cover_target(&own, &contacts, false, 1), "me");
    assert_eq!(cover_target(&own, &Vec::new(), true, 0), "me");
}

// Hidden service

#[test]
fn base64_of_known_inputs() {
    assert_eq!(base64_encode_standard(b""), "");
    assert_eq!(base64_encode_standard(b"f"), "Zg==");
    assert_eq!(base64_encode_standard(b"fo"), "Zm8=");
    assert_eq!(base64_encode_standard(b"foo"), "Zm9v");
    assert_eq!(base64_encode_standard(b"foobar"), "Zm9vYmFy");
    assert_eq!(base64_encode_standard(&[0xfb, 0xff, 0xfe]), "+//+");
}

#[test]
fn the_service_key_is_derived_and_clamped() {
    let ikm = onion_ikm(&[1u8; 64], &[2u8; 100]);
    assert_eq!(ikm, onion_ikm(&[1u8; 64], &[2u8; 100]));
    assert_ne!(ikm, onion_ikm(&[3u8; 64], &[2u8; 100]));
    assert_ne!(onion_ikm(&[], &[2u8; 100]), onion_ikm(&[], &[2u8; 100]));
    let key = derive_onion_key(&ikm).ok().unwrap();
    let mut seed = [0u8; 32];
    hkdf::Hkdf::<sha2::Sha256>::new(None, &ikm).expand(b"op4-onion-key-v1", &mut seed).unwrap();
    let mut expected: [u8; 64] = Sha512::digest(seed).into();
    expected[0] &= 248;
    expected[31] = (expected[31] & 127) | 64;
    assert_eq!(key, expected);
    assert_eq!(key[0] % 8, 0);
    assert!((64..128).contains(&key[31]));
}

#[test]
fn commands_to_the_control_port() {
    let key = [0u8; 64];
    let command = add_onion_command(&key);
    assert!(command.starts_with("ADD_ONION ED25519-V3:AAAA"));
    assert!(command.contains("14101"));
    assert!(command.ends_with("\r\n"));
    assert_eq!(LISTEN_PORT, 14101);
    assert_eq!(bytes_to_hex(&[0x0f, 0xa0]), "0FA0");
    assert_eq!(authenticate_command(&[0xab]), "AUTHENTICATE AB\r\n");
    assert_eq!(onion_address("abc"), "abc.onion:14101");
}

#[test]
fn replies_of_the_control_port() {
    let info = "250-AUTH METHODS=COOKIE,SAFECOOKIE COOKIEFILE=\"/run/tor/x\"\r\n250 OK\r\n";
    assert!(offers_cookie(info));
    assert_eq!(extract_cookie_path(info), Some("/run/tor/x".to_string()));
    assert_eq!(cookie_path(info), "/run/tor/x");
    assert_eq!(extract_cookie_path("COOKIEFILE=\"open"), None);
    assert_eq!(cookie_path("250 OK"), "/run/tor/control.authcookie");
    assert!(is_authenticated("250 OK\r\n"));
    assert!(!is_authenticated("515 Bad authentication\r\n"));
}

#[test]
fn the_service_id_is_found() {
    let id = parse_service_id("250-ServiceID=abcdef\r\n250 OK\r\n");
    assert_eq!(id.ok().unwrap(), "abcdef");
    let id = parse_service_id("250 ServiceID=xyz\r\n");
    assert_eq!(id.ok().unwrap(), "xyz");
    match parse_service_id("510 error") {
        Err(NetworkError::NymInit(t)) => {
            assert_eq!(t, "No ServiceID in ADD_ONION response:\n510 error");
        }
        _ => panic!("no service id"),
    }
}

#[test]
fn lines_end_at_a_line_feed() {
    let mut line: Vec<u8> = Vec::new();
    for b in b"250 O" {
        assert!(matches!(line_byte(&mut line, *b), LineStep::More));
    }
    assert!(matches!(line_byte(&mut line, b'K'), LineStep::More));
    assert!(matches!(line_byte(&mut line, b'\r'), LineStep::More));
    match line_byte(&mut line, b'\n') {
        LineStep::Done(l) => assert_eq!(l, "250 OK\r\n"),
        _ => panic!("the line is done"),
    }
    let mut line: Vec<u8> = vec![b'x'; 4096];
    assert!(matches!(line_byte(&mut line, b'x'), LineStep::TooLong));
}

#[test]
fn replies_end_at_their_last_line() {
    let mut response = String::new();
    assert_eq!(response_line(&mut response, "250-first\r\n"), ResponseStep::More);
    assert_eq!(response_line(&mut response, "250 OK\r\n"), ResponseStep::Done);
    assert_eq!(response, "250-first\r\n250 OK\r\n");
    let mut response = "x".repeat(8190);
    assert_eq!(response_line(&mut response, "250-more\r\n"), ResponseStep::Overflow);
}

#[test]
fn nicknames_are_derived() {
    let a = service_nickname(&[1u8; 100]);
    assert!(a.starts_with("op4_"));
    assert_eq!(a.len(), 36);
    assert_eq!(a, service_nickname(&[1u8; 100]));
    assert_ne!(a, service_nickname(&[2u8; 100]));
}

// SOCKS5

#[test]
fn targets_have_a_host_and_a_port() {
    assert_eq!(parse_target("abc.onion:14101"), Ok(("abc.onion".to_string(), 14101)));
    assert_eq!(parse_target("a:b:80"), Ok(("a:b".to_string(), 80)));
    assert_eq!(parse_target("abc.onion"), Err(SocksError::NoPort));
    assert_eq!(parse_target("abc.onion:"), Err(SocksError::BadPort));
    assert_eq!(parse_target("abc.onion:65536"), Err(SocksError::BadPort));
    assert_eq!(parse_target("abc.onion:x"), Err(SocksError::BadPort));
}

fn opened(target: &str) -> Dialog {
    let (dialog, hello) = Dialog::open(target).ok().unwrap();
    assert_eq!(hello, [5, 1, 2]);
    dialog
}

#[test]
fn the_dialog_ends_in_a_connection() {
    for (kind, bound) in [(1u8, 6usize), (4, 18)] {
        let mut d = opened("ab:258");
        assert_eq!(d.wants(), 2);
        assert_eq!(d.advance(&[5, 2]).ok().unwrap(), b"\x01\x06ab:258\x01\x00");
        assert_eq!(d.advance(&[1, 0]).ok().unwrap(), b"\x05\x01\x00\x03\x02ab\x01\x02");
        assert_eq!(d.wants(), 4);
        assert!(d.advance(&[5, 0, 0, kind]).ok().unwrap().is_empty());
        assert_eq!(d.wants(), bound);
        assert!(d.advance(&vec![0u8; bound]).is_ok());
        assert_eq!(d.stage, Stage::Connected);
    }
    let mut d = opened("ab:1");
    d.advance(&[5, 2]).ok().unwrap();
    d.advance(&[1, 0]).ok().unwrap();
    d.advance(&[5, 0, 0, 3]).ok().unwrap();
    assert_eq!(d.wants(), 1);
    d.advance(&[9]).ok().unwrap();
    assert_eq!(d.wants(), 11);
}

#[test]
fn the_proxy_can_refuse() {
    let mut d = opened("ab:1");
    assert_eq!(d.advance(&[5, 255]), Err(SocksError::MethodRejected(5, 255)));
    d.advance(&[5, 2]).ok().unwrap();
    assert_eq!(d.advance(&[1, 1]), Err(SocksError::AuthRejected(1, 1)));
    d.advance(&[1, 0]).ok().unwrap();
    assert_eq!(d.advance(&[5, 4, 0, 1]), Err(SocksError::ConnectFailed(4)));
}

#[test]
fn names_are_bounded() {
    let long = format!("{}:1", "a".repeat(254));
    let mut d = opened(&long);
    assert_eq!(d.advance(&[5, 2]), Err(SocksError::UserTooLong));
    let mut d = opened("ab:1");
    d.advance(&[5, 2]).ok().unwrap();
    d.host = "a".repeat(256);
    assert_eq!(d.advance(&[1, 0]), Err(SocksError::HostTooLong));
}

#[test]
fn peers_have_circuits_of_their_own() {
    let mut a = opened("a.onion:1");
    let mut b = opened("b.onion:1");
    assert_ne!(a.advance(&[5, 2]).ok().unwrap(), b.advance(&[5, 2]).ok().unwrap());
}
