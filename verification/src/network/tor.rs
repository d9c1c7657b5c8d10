//! The Tor control port: the key of our hidden service, and the commands and
//! replies that set it up.
use crate::bytes;
use crate::crypto::primitives::hkdf_32;
use crate::crypto::suite;
use crate::crypto::suite::{drawn_32, hkdf_sha256, sha512};
use crate::error::NetworkError;
use crate::text;
use crate::text::{
    first_part, has_part, hex_char_upper, lines_from, lossy_text, strip_spec, texts, trim_spec,
};
use vstd::prelude::*;
use vstd::string::StringSliceAdditionalSpecFns;
use vstd::utf8::encode_utf8;

verus! {

/// Port of the hidden service, and of the listener behind it.
pub const LISTEN_PORT: u16 = 14101;

/// A line of a reply must not be longer.
pub const MAX_LINE_BYTES: usize = 4096;

/// A reply must not be longer.
pub const MAX_RESPONSE_BYTES: usize = 8192;

/// The key material of the hidden service: both identity secrets together, so
/// that one of them alone does not give the address away. Before the first
/// run, when there are none, it is random.
pub fn onion_ikm(signing_secret: &[u8], kem_secret: &[u8]) -> (r: [u8; 32])
    ensures
        signing_secret@.len() > 0 && kem_secret@.len() > 0 ==> r@ == hkdf_sha256(
            None,
            signing_secret@ + kem_secret@,
            "op4-hs-ikm-v1".spec_bytes(),
            32,
        ),
        signing_secret@.len() == 0 || kem_secret@.len() == 0 ==> drawn_32(r@),
{
    if signing_secret.len() == 0 || kem_secret.len() == 0 {
        return suite::fresh_32();
    }
    let mut combined: Vec<u8> = Vec::new();
    bytes::append(&mut combined, signing_secret);
    bytes::append(&mut combined, kem_secret);
    assert(combined@ =~= signing_secret@ + kem_secret@);
    hkdf_32(&combined, None, "op4-hs-ikm-v1".as_bytes())
}

/// An expanded Ed25519 key with its scalar clamped.
pub open spec fn clamped(b: Seq<u8>) -> Seq<u8> {
    b.update(0, b[0] & 248).update(31, (b[31] & 127) | 64)
}

/// The expanded Ed25519 key of the hidden service.
pub open spec fn onion_key(ikm: Seq<u8>) -> Seq<u8> {
    clamped(sha512(hkdf_sha256(None, ikm, "op4-onion-key-v1".spec_bytes(), 32)))
}

/// Derives the expanded Ed25519 key of the hidden service: a seed out of the
/// key material, SHA-512 of the seed, and the scalar clamped. The same key
/// material gives the same address.
pub fn derive_onion_key(ikm: &[u8]) -> (r: Result<[u8; 64], NetworkError>)
    ensures
        r matches Ok(k) && k@ == onion_key(ikm@),
{
    let seed = hkdf_32(ikm, None, "op4-onion-key-v1".as_bytes());
    let mut expanded = suite::sha512_digest(&seed);
    let ghost digest = expanded@;
    expanded[0] = expanded[0] & 248;
    expanded[31] = (expanded[31] & 127) | 64;
    assert(expanded@ =~= clamped(digest));
    Ok(expanded)
}

/// The scalar is clamped as Ed25519 asks: a multiple of eight, with its top bit
/// clear and the one below it set.
pub proof fn onion_key_is_clamped(b: Seq<u8>)
    requires
        b.len() == 64,
    ensures
        clamped(b)[0] % 8 == 0,
        64 <= clamped(b)[31] < 128,
        forall|i: int| 0 <= i < 64 && i != 0 && i != 31 ==> clamped(b)[i] == b[i],
{
    let x = b[0];
    let y = b[31];
    assert((x & 248) % 8 == 0) by (bit_vector);
    assert(64 <= ((y & 127) | 64) < 128) by (bit_vector);
}

/// The character of six bits in Base64.
pub open spec fn base64_char(n: int) -> char {
    if n < 26 {
        (n + 65) as char
    } else if n < 52 {
        (n + 71) as char
    } else if n < 62 {
        (n - 4) as char
    } else if n == 62 {
        '+'
    } else {
        '/'
    }
}

/// The character of six bits in Base64.
fn base64_digit(n: u32) -> (c: char)
    requires
        n < 64,
    ensures
        c == base64_char(n as int),
{
    if n < 26 {
        (n as u8 + 65) as char
    } else if n < 52 {
        (n as u8 + 71) as char
    } else if n < 62 {
        (n as u8 - 4) as char
    } else if n == 62 {
        '+'
    } else {
        '/'
    }
}

/// The four characters of up to three bytes.
pub open spec fn base64_group(b: Seq<u8>) -> Seq<char> {
    let b0 = b[0] as int;
    let b1 = if b.len() > 1 {
        b[1] as int
    } else {
        0
    };
    let b2 = if b.len() > 2 {
        b[2] as int
    } else {
        0
    };
    seq![
        base64_char(b0 / 4),
        base64_char(b0 % 4 * 16 + b1 / 16),
        if b.len() > 1 {
            base64_char(b1 % 16 * 4 + b2 / 64)
        } else {
            '='
        },
        if b.len() > 2 {
            base64_char(b2 % 64)
        } else {
            '='
        },
    ]
}

/// The padded Base64 text of `b`, from `from` on.
pub open spec fn base64_from(b: Seq<u8>, from: int) -> Seq<char>
    decreases b.len() - from,
{
    if from < 0 || from >= b.len() {
        seq![]
    } else if from + 3 >= b.len() {
        base64_group(b.skip(from))
    } else {
        base64_group(b.subrange(from, from + 3)) + base64_from(b, from + 3)
    }
}

/// Standard Base64 with padding, which the control port expects.
pub fn base64_encode_standard(data: &[u8]) -> (r: String)
    ensures
        r@ == base64_from(data@, 0),
{
    let mut out = String::new();
    let mut i: usize = 0;
    assert(out@ + base64_from(data@, 0) =~= base64_from(data@, 0));
    while i < data.len()
        invariant
            i <= data@.len(),
            out@ + base64_from(data@, i as int) == base64_from(data@, 0),
        decreases data@.len() - i,
    {
        assert(data@.len() == data.len());
        let left: usize = data.len() - i;
        let b0: u32 = data[i] as u32;
        let b1: u32 = if left > 1 {
            data[i + 1] as u32
        } else {
            0
        };
        let b2: u32 = if left > 2 {
            data[i + 2] as u32
        } else {
            0
        };
        let ghost before = out@;
        let ghost group = if left <= 3 {
            data@.skip(i as int)
        } else {
            data@.subrange(i as int, i + 3)
        };
        out.push(base64_digit(b0 / 4));
        out.push(base64_digit(b0 % 4 * 16 + b1 / 16));
        out.push(
            if left > 1 {
                base64_digit(b1 % 16 * 4 + b2 / 64)
            } else {
                '='
            },
        );
        out.push(
            if left > 2 {
                base64_digit(b2 % 64)
            } else {
                '='
            },
        );
        assert(out@ =~= before + base64_group(group));
        if left <= 3 {
            assert(base64_from(data@, i as int) == base64_group(group));
            return out;
        }
        i = i + 3;
        assert(out@ + base64_from(data@, i as int) =~= before + (base64_group(group) + base64_from(
            data@,
            i as int,
        )));
    }
    assert(out@ + base64_from(data@, i as int) =~= out@);
    out
}

/// Base64 takes four characters for every three bytes begun.
pub proof fn base64_length(b: Seq<u8>, from: int)
    requires
        0 <= from <= b.len(),
    ensures
        base64_from(b, from).len() == (b.len() - from + 2) / 3 * 4,
    decreases b.len() - from,
{
    if from < b.len() && from + 3 < b.len() {
        base64_length(b, from + 3);
    }
}

/// The upper-case hexadecimal text of `b`.
pub open spec fn hex_upper(b: Seq<u8>) -> Seq<char> {
    Seq::new(
        2 * b.len(),
        |k: int|
            if k % 2 == 0 {
                hex_char_upper(b[k / 2] as int / 16)
            } else {
                hex_char_upper(b[k / 2] as int % 16)
            },
    )
}

/// Writes bytes in upper-case hexadecimal, as the control port expects a
/// cookie.
pub fn bytes_to_hex(data: &[u8]) -> (r: String)
    ensures
        r@ == hex_upper(data@),
{
    let mut out = String::new();
    let mut i: usize = 0;
    while i < data.len()
        invariant
            i <= data@.len(),
            out@ == hex_upper(data@.take(i as int)),
        decreases data@.len() - i,
    {
        let x: u8 = data[i];
        out.push(text::hex_digit_upper(x / 16));
        out.push(text::hex_digit_upper(x % 16));
        proof {
            let t = data@.take(i + 1);
            assert forall|k: int| 0 <= k < 2 * i + 2 implies out@[k] == hex_upper(t)[k] by {
                if k < 2 * i {
                    assert(out@[k] == hex_upper(data@.take(i as int))[k]);
                    assert(data@.take(i as int)[k / 2] == t[k / 2]);
                } else {
                    assert(k / 2 == i);
                }
            }
            assert(out@ =~= hex_upper(t));
        }
        i = i + 1;
    }
    assert(data@.take(i as int) =~= data@);
    out
}

/// The command that sets up the hidden service with a key.
pub open spec fn add_onion_text(key: Seq<u8>) -> Seq<char> {
    "ADD_ONION ED25519-V3:"@ + base64_from(key, 0) + " Port=14101,127.0.0.1:14101\r\n"@
}

/// The command that sets up the hidden service with a key.
pub fn add_onion_command(key: &[u8; 64]) -> (r: String)
    ensures
        r@ == add_onion_text(key@),
{
    text::joined3(
        "ADD_ONION ED25519-V3:",
        base64_encode_standard(key).as_str(),
        " Port=14101,127.0.0.1:14101\r\n",
    )
}

/// Our address, as contacts learn it.
pub open spec fn address_of(service_id: Seq<char>) -> Seq<char> {
    service_id + ".onion:14101"@
}

/// Our address, as contacts learn it.
pub fn onion_address(service_id: &str) -> (r: String)
    ensures
        r@ == address_of(service_id@),
{
    text::joined(service_id, ".onion:14101")
}

/// Whether the control port offers authentication by cookie. Without it any
/// process on the machine could control Tor, so nothing else will do.
pub fn offers_cookie(info: &str) -> (r: bool)
    ensures
        r == (has_part(info@, "COOKIE"@) || has_part(info@, "SAFECOOKIE"@)),
{
    text::contains(info, "COOKIE") || text::contains(info, "SAFECOOKIE")
}

/// The cookie's path in a reply: what stands in quotes behind its name.
pub open spec fn cookie_path_in(info: Seq<char>) -> Option<Seq<char>> {
    match first_part(info, "COOKIEFILE=\""@, 0) {
        None => None,
        Some(i) => {
            let start = i + "COOKIEFILE=\""@.len();
            match first_part(info, "\""@, start) {
                None => None,
                Some(end) => Some(info.subrange(start, end)),
            }
        },
    }
}

/// The cookie's path in a reply.
pub fn extract_cookie_path(info: &str) -> (r: Option<String>)
    ensures
        match r {
            Some(p) => cookie_path_in(info@) == Some(p@),
            None => cookie_path_in(info@) is None,
        },
{
    let v = text::chars_of(info);
    let marker = text::chars_of("COOKIEFILE=\"");
    let quote = text::chars_of("\"");
    let i = match text::find_from(&v, &marker, 0) {
        Some(i) => i,
        None => {
            return None;
        },
    };
    assert(v@.len() == v.len());
    let start: usize = i + marker.len();
    match text::find_from(&v, &quote, start) {
        Some(end) => {
            proof {
                text::first_part_is_found(v@, quote@, start as int);
            }
            Some(text::text_of(&v, start, end))
        },
        None => None,
    }
}

/// Where the cookie is, by the reply or by default.
pub fn cookie_path(info: &str) -> (r: String)
    ensures
        r@ == (match cookie_path_in(info@) {
            Some(p) => p,
            None => "/run/tor/control.authcookie"@,
        }),
{
    match extract_cookie_path(info) {
        Some(p) => p,
        None => "/run/tor/control.authcookie".to_owned(),
    }
}

/// The command that authenticates with a cookie.
pub fn authenticate_command(cookie: &[u8]) -> (r: String)
    ensures
        r@ == "AUTHENTICATE "@ + hex_upper(cookie@) + "\r\n"@,
{
    text::joined3("AUTHENTICATE ", bytes_to_hex(cookie).as_str(), "\r\n")
}

/// Whether the control port accepted the cookie.
pub fn is_authenticated(response: &str) -> (r: bool)
    ensures
        r == has_part(response@, "250"@),
{
    text::contains(response, "250")
}

/// What a byte makes of a line that is being read.
pub enum LineStep {
    /// More bytes follow.
    More,
    /// The line is complete.
    Done(String),
    /// The line is too long.
    TooLong,
}

/// Takes up the next byte of a line. A line ends with its line feed.
pub fn line_byte(line: &mut Vec<u8>, byte: u8) -> (r: LineStep)
    ensures
        final(line)@ == old(line)@.push(byte),
        match r {
            LineStep::Done(t) => byte == 10 && t@ == lossy_text(final(line)@),
            LineStep::TooLong => byte != 10 && final(line)@.len() > MAX_LINE_BYTES,
            LineStep::More => byte != 10 && final(line)@.len() <= MAX_LINE_BYTES,
        },
{
    line.push(byte);
    if byte == 10 {
        LineStep::Done(text::from_utf8_lossy(line))
    } else if line.len() > MAX_LINE_BYTES {
        LineStep::TooLong
    } else {
        LineStep::More
    }
}

/// Whether a line is the last of a reply: three digits and a space.
pub open spec fn is_final_line(b: Seq<u8>) -> bool {
    &&& b.len() >= 4
    &&& b[3] == 32
    &&& 48 <= b[0] <= 57
    &&& 48 <= b[1] <= 57
    &&& 48 <= b[2] <= 57
}

/// What a line makes of a reply that is being read.
#[derive(Debug, Clone, Copy, PartialEq, Eq, Structural)]
pub enum ResponseStep {
    /// More lines follow.
    More,
    /// The reply is complete.
    Done,
    /// The reply is too long.
    Overflow,
}

/// Takes up the next line of a reply.
pub fn response_line(response: &mut String, line: &str) -> (r: ResponseStep)
    ensures
        final(response)@ == old(response)@ + line@,
        r == (if is_final_line(encode_utf8(line@)) {
            ResponseStep::Done
        } else if encode_utf8(final(response)@).len() > MAX_RESPONSE_BYTES {
            ResponseStep::Overflow
        } else {
            ResponseStep::More
        }),
{
    response.append(line);
    let b = line.as_bytes();
    if b.len() >= 4 && b[3] == 32 && 48 <= b[0] && b[0] <= 57 && 48 <= b[1] && b[1] <= 57 && 48
        <= b[2] && b[2] <= 57 {
        ResponseStep::Done
    } else if text::byte_len(response.as_str()) > MAX_RESPONSE_BYTES {
        ResponseStep::Overflow
    } else {
        ResponseStep::More
    }
}

/// The service id that a line names, if it names one.
pub open spec fn service_id_of(line: Seq<char>) -> Option<Seq<char>> {
    let rest = match strip_spec(line, "250-ServiceID="@) {
        Some(r) => Some(r),
        None => strip_spec(line, "250 ServiceID="@),
    };
    match rest {
        Some(r) => if trim_spec(r).len() > 0 {
            Some(trim_spec(r))
        } else {
            None
        },
        None => None,
    }
}

/// The first service id that the lines from `from` on name.
pub open spec fn service_id_from(lines: Seq<Seq<char>>, from: int) -> Option<Seq<char>>
    decreases lines.len() - from,
{
    if from < 0 || from >= lines.len() {
        None
    } else {
        match service_id_of(lines[from]) {
            Some(id) => Some(id),
            None => service_id_from(lines, from + 1),
        }
    }
}

/// The service id that a line names.
fn line_service_id(line: &str) -> (r: Option<String>)
    ensures
        match r {
            Some(id) => service_id_of(line@) == Some(id@),
            None => service_id_of(line@) is None,
        },
{
    let rest = match text::strip_prefix(line, "250-ServiceID=") {
        Some(r) => r,
        None => match text::strip_prefix(line, "250 ServiceID=") {
            Some(r) => r,
            None => {
                return None;
            },
        },
    };
    let id = text::trim(rest.as_str());
    if id.as_str().is_empty() {
        None
    } else {
        Some(id)
    }
}

/// Reads the service id out of the reply to the command that set the service
/// up.
pub fn parse_service_id(response: &str) -> (r: Result<String, NetworkError>)
    ensures
        match r {
            Ok(id) => service_id_from(lines_from(response@, 0), 0) == Some(id@),
            Err(e) => {
                &&& service_id_from(lines_from(response@, 0), 0) is None
                &&& e matches NetworkError::NymInit(t) && t@
                    == "No ServiceID in ADD_ONION response:\n"@ + response@
            },
        },
{
    let lines = text::lines(response);
    let ghost all = lines_from(response@, 0);
    let mut i: usize = 0;
    while i < lines.len()
        invariant
            i <= lines@.len(),
            all == texts(lines@),
            all == lines_from(response@, 0),
            service_id_from(all, 0) == service_id_from(all, i as int),
        decreases lines@.len() - i,
    {
        assert(all[i as int] == lines@[i as int]@);
        if let Some(id) = line_service_id(lines[i].as_str()) {
            return Ok(id);
        }
        i = i + 1;
    }
    Err(NetworkError::NymInit(text::joined("No ServiceID in ADD_ONION response:\n", response)))
}

/// The nickname of the onion service on a phone: it follows from the KEM
/// secret, so that the address stays.
pub fn service_nickname(kem_secret: &[u8]) -> (r: String)
    ensures
        r@ == "op4_"@ + text::hex_text(
            hkdf_sha256(None, kem_secret@, "op4-onion-nickname".spec_bytes(), 16),
        ),
{
    let mut okm = [0u8;16];
    let _ = crate::crypto::primitives::hkdf_expand(
        kem_secret,
        None,
        "op4-onion-nickname".as_bytes(),
        &mut okm,
    );
    text::joined("op4_", text::hex_lower(&okm).as_str())
}

} // verus!
