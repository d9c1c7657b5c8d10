//! What the bytes and texts of the network stand for: laws that read them back.
use crate::bytes;
use crate::bytes::from_be32;
use crate::network::frame::{framed, unframed, MAX_FRAME_BYTES};
use crate::network::socks::{
    auth_bytes, dialog_step, last_colon, request_bytes, target_parts, wanted, DialogView,
    SocksError, Stage,
};
use crate::network::tor::{
    add_onion_text, address_of, base64_char, base64_from, base64_group, base64_length,
    cookie_path_in, hex_upper, service_id_from, service_id_of, LISTEN_PORT,
};
use crate::text;
use crate::text::{
    decimal, first_part, has_part, hex_value, is_digit, is_space, part_at, trim_is_exact, trim_spec,
};
use crate::ui::laws::parts_are_held;
use vstd::prelude::*;
use vstd::utf8::encode_utf8;

verus! {

/// A host and a port, written with a colon between them, are read back as they
/// were, whatever colons the host holds.
pub proof fn targets_are_read_back(host: Seq<char>, port: u16)
    ensures
        target_parts(host + ":"@ + decimal(port as nat)) == Ok::<(Seq<char>, u16), SocksError>(
            (host, port),
        ),
{
    reveal_strlit(":");
    let d = decimal(port as nat);
    let s = host + ":"@ + d;
    text::decimal_is_read_back(port as nat);
    assert forall|j: int| host.len() < j < s.len() implies s[j] != ':' by {
        assert(s[j] == d[j - host.len() - 1]);
        assert(is_digit(d[j - host.len() - 1]));
    }
    lemma_last_colon(s, s.len() as int, host.len() as int);
    assert(s.skip(host.len() as int + 1) =~= d);
    assert(s.take(host.len() as int) =~= host);
    assert(is_digit(d[0]));
}

proof fn lemma_last_colon(s: Seq<char>, to: int, at: int)
    requires
        0 <= at < to <= s.len(),
        s[at] == ':',
        forall|j: int| at < j < to ==> s[j] != ':',
    ensures
        last_colon(s, to) == Some(at),
    decreases to,
{
    if to - 1 > at {
        lemma_last_colon(s, to - 1, at);
    }
}

/// A target without a colon has no port.
pub proof fn targets_need_a_port(s: Seq<char>, to: int)
    requires
        forall|j: int| 0 <= j < s.len() ==> s[j] != ':',
        to == s.len(),
    ensures
        target_parts(s) == Err::<(Seq<char>, u16), SocksError>(SocksError::NoPort),
{
    lemma_no_colon(s, to);
}

proof fn lemma_no_colon(s: Seq<char>, to: int)
    requires
        forall|j: int| 0 <= j < s.len() ==> s[j] != ':',
        to <= s.len(),
    ensures
        last_colon(s, to) is None,
    decreases to,
{
    if to > 0 {
        lemma_no_colon(s, to - 1);
    }
}

/// Our own address is a target at the port that the service listens on.
pub proof fn addresses_are_targets(id: Seq<char>)
    ensures
        target_parts(address_of(id)) == Ok::<(Seq<char>, u16), SocksError>(
            (id + ".onion"@, LISTEN_PORT),
        ),
{
    reveal_strlit(".onion:14101");
    reveal_strlit(".onion");
    reveal_strlit(":");
    let d = decimal(14101);
    assert(d == seq!['1', '4', '1', '0', '1']) by {
        reveal_with_fuel(decimal, 6);
    }
    assert(address_of(id) =~= id + ".onion"@ + ":"@ + d);
    targets_are_read_back(id + ".onion"@, LISTEN_PORT);
}

/// What the proxy is sent holds the target in full: the user name behind its
/// length, the host name behind its length, and the port behind that.
pub proof fn requests_name_their_target(target: Seq<char>, host: Seq<char>, port: u16)
    requires
        encode_utf8(target).len() <= 255,
        encode_utf8(host).len() <= 255,
    ensures
        ({
            let a = auth_bytes(target);
            let n = encode_utf8(target).len() as int;
            &&& a.len() == n + 4
            &&& a[0] == 1
            &&& a[1] == n
            &&& a.subrange(2, n + 2) == encode_utf8(target)
            &&& a[n + 2] == 1
        }),
        ({
            let r = request_bytes(host, port);
            let n = encode_utf8(host).len() as int;
            &&& r.len() == n + 7
            &&& r[0] == 5
            &&& r[1] == 1
            &&& r[2] == 0
            &&& r[3] == 3
            &&& r[4] == n
            &&& r.subrange(5, n + 5) == encode_utf8(host)
            &&& r[n + 5] * 256 + r[n + 6] == port
        }),
{
    let a = auth_bytes(target);
    let r = request_bytes(host, port);
    assert(a.subrange(2, encode_utf8(target).len() as int + 2) =~= encode_utf8(target));
    assert(r.subrange(5, encode_utf8(host).len() as int + 5) =~= encode_utf8(host));
}

/// A dialog goes on only where the proxy agreed: with version 5 and the user
/// name method, and with status 0 afterwards. It ends with the proxy's code
/// otherwise.
pub proof fn refusals_end_the_dialog(d: DialogView, input: Seq<u8>)
    requires
        input.len() == wanted(d.stage),
    ensures
        d.stage == Stage::Method ==> match dialog_step(d, input) {
            Ok((next, sent)) => input == seq![5u8, 2u8] && next == Stage::Auth && sent
                == auth_bytes(d.target),
            Err(e) => input != seq![5u8, 2u8] || encode_utf8(d.target).len() > 255,
        },
        d.stage == Stage::Auth ==> match dialog_step(d, input) {
            Ok((next, sent)) => input[1] == 0 && next == Stage::Reply && sent == request_bytes(
                d.host,
                d.port,
            ),
            Err(e) => input[1] != 0 || encode_utf8(d.host).len() > 255,
        },
        d.stage == Stage::Reply ==> match dialog_step(d, input) {
            Ok((_, sent)) => input[1] == 0 && sent.len() == 0,
            Err(e) => input[1] != 0 && e == SocksError::ConnectFailed(input[1]),
        },
{
    if d.stage == Stage::Method && input[0] == 5 && input[1] == 2 {
        assert(input =~= seq![5u8, 2u8]);
    }
}

/// The address that the proxy bound is read to its end: four or sixteen bytes,
/// or a name behind its length, and two bytes of port each time. Then the stream
/// belongs to the peer.
pub proof fn bound_addresses_are_read_whole(
    d: DialogView,
    head: Seq<u8>,
    length: u8,
    n: usize,
    rest: Seq<u8>,
)
    requires
        d.stage == Stage::Reply,
        head.len() == 4,
        head[1] == 0,
    ensures
        head[3] == 1 ==> (dialog_step(d, head) matches Ok((s, _)) && wanted(s) == 4 + 2),
        head[3] == 4 ==> (dialog_step(d, head) matches Ok((s, _)) && wanted(s) == 16 + 2),
        head[3] == 3 ==> {
            &&& dialog_step(d, head) matches Ok((s, _))
            &&& wanted(s) == 1
            &&& dialog_step((DialogView { stage: s, ..d }), seq![length]) matches Ok((t, sent))
            &&& wanted(t) == length + 2
            &&& sent.len() == 0
        },
        dialog_step((DialogView { stage: Stage::Bound(n), ..d }), rest) == Ok::<
            (Stage, Seq<u8>),
            SocksError,
        >((Stage::Connected, seq![])),
{
}

/// What is read of a stream is what a frame was written of, and nothing of an
/// oversized frame or of one that is not there to its end.
pub proof fn frames_are_read_whole(stream: Seq<u8>)
    ensures
        match unframed(stream) {
            Some(data) => data.len() <= MAX_FRAME_BYTES && data.len() == from_be32(stream.take(4))
                && stream.len() >= 4 + data.len() && stream.subrange(4, 4 + data.len() as int) == data,
            None => stream.len() < 4 || from_be32(stream.take(4)) > MAX_FRAME_BYTES
                || stream.len() < 4 + from_be32(stream.take(4)),
        },
{
}

/// An oversized message is framed but never read.
pub proof fn oversized_frames_are_refused(data: Seq<u8>, rest: Seq<u8>)
    requires
        MAX_FRAME_BYTES < data.len() <= u32::MAX,
    ensures
        unframed(framed(data) + rest) is None,
{
    let n = data.len() as u32;
    bytes::be32_round_trip(n);
    assert((framed(data) + rest).take(4) =~= bytes::be32(n));
}

/// The six bits that a character of Base64 stands for.
pub open spec fn base64_value(c: char) -> int {
    if 'A' <= c <= 'Z' {
        c as int - 'A' as int
    } else if 'a' <= c <= 'z' {
        c as int - 'a' as int + 26
    } else if '0' <= c <= '9' {
        c as int - '0' as int + 52
    } else if c == '+' {
        62
    } else {
        63
    }
}

/// The byte at `i` of what a Base64 text stands for.
pub open spec fn base64_byte(s: Seq<char>, i: int) -> int {
    let g = i / 3 * 4;
    if i % 3 == 0 {
        base64_value(s[g]) * 4 + base64_value(s[g + 1]) / 16
    } else if i % 3 == 1 {
        base64_value(s[g + 1]) % 16 * 16 + base64_value(s[g + 2]) / 4
    } else {
        base64_value(s[g + 2]) % 4 * 64 + base64_value(s[g + 3])
    }
}

proof fn lemma_base64_value(n: int)
    requires
        0 <= n < 64,
    ensures
        base64_value(base64_char(n)) == n,
{
}

proof fn lemma_base64_group(b: Seq<u8>)
    requires
        1 <= b.len() <= 3,
    ensures
        base64_group(b).len() == 4,
        forall|i: int| 0 <= i < b.len() ==> base64_byte(base64_group(b), i) == b[i],
        b.len() < 3 ==> base64_group(b)[3] == '=',
        b.len() < 2 ==> base64_group(b)[2] == '=',
{
    let b0 = b[0] as int;
    let b1 = if b.len() > 1 {
        b[1] as int
    } else {
        0
    };
    let b2 = if b.len() > 2 {
        b[2] as int
    } else {
        0
    };
    lemma_base64_value(b0 / 4);
    lemma_base64_value(b0 % 4 * 16 + b1 / 16);
    lemma_base64_value(b1 % 16 * 4 + b2 / 64);
    lemma_base64_value(b2 % 64);
    let s = base64_group(b);
    assert forall|i: int| 0 <= i < b.len() implies base64_byte(s, i) == b[i] by {
        if i == 0 {
        } else if i == 1 {
        } else {
            assert(i == 2);
        }
    }
}

proof fn lemma_base64_from(b: Seq<u8>, from: int, i: int)
    requires
        0 <= from <= i < b.len(),
        from % 3 == 0,
    ensures
        base64_byte(base64_from(b, from), i - from) == b[i],
        base64_from(b, from).len() == (b.len() - from + 2) / 3 * 4,
    decreases b.len() - from,
{
    base64_length(b, from);
    let s = base64_from(b, from);
    if from + 3 >= b.len() {
        lemma_base64_group(b.skip(from));
        assert(b.skip(from)[i - from] == b[i]);
    } else {
        let group = b.subrange(from, from + 3);
        let tail = base64_from(b, from + 3);
        lemma_base64_group(group);
        if i < from + 3 {
            let k = i - from;
            assert(group[k] == b[i]);
            assert(k / 3 == 0);
            assert forall|j: int| 0 <= j < 4 implies s[j] == base64_group(group)[j] by {}
        } else {
            lemma_base64_from(b, from + 3, i);
            base64_length(b, from + 3);
            let k = i - from;
            let g = (k - 3) / 3 * 4;
            assert(k / 3 * 4 == g + 4);
            assert(0 <= g && g + 4 <= tail.len());
            assert forall|j: int| g <= j < g + 4 implies s[j + 4] == tail[j] by {}
        }
    }
}

/// Base64 keeps every byte: each is read back from the characters of its group.
pub proof fn base64_is_read_back(b: Seq<u8>)
    ensures
        forall|i: int| 0 <= i < b.len() ==> base64_byte(base64_from(b, 0), i) == #[trigger] b[i],
{
    assert forall|i: int| 0 <= i < b.len() implies base64_byte(base64_from(b, 0), i)
        == #[trigger] b[i] by {
        lemma_base64_from(b, 0, i);
    }
}

/// Upper-case hexadecimal keeps every byte, and has no lower-case letter.
pub proof fn hex_upper_is_read_back(b: Seq<u8>)
    ensures
        hex_upper(b).len() == 2 * b.len(),
        forall|i: int|
            0 <= i < b.len() ==> hex_value(hex_upper(b)[2 * i]) * 16 + hex_value(
                hex_upper(b)[2 * i + 1],
            ) == #[trigger] b[i],
        forall|k: int|
            0 <= k < hex_upper(b).len() ==> (is_digit(#[trigger] hex_upper(b)[k]) || 'A'
                <= hex_upper(b)[k] <= 'F'),
{
    assert forall|i: int| 0 <= i < b.len() implies hex_value(hex_upper(b)[2 * i]) * 16 + hex_value(
        hex_upper(b)[2 * i + 1],
    ) == #[trigger] b[i] by {
        assert((2 * i) / 2 == i && (2 * i + 1) / 2 == i);
        assert((2 * i) % 2 == 0 && (2 * i + 1) % 2 == 1);
    }
    assert forall|k: int| 0 <= k < hex_upper(b).len() implies (is_digit(#[trigger] hex_upper(b)[k])
        || 'A' <= hex_upper(b)[k] <= 'F') by {
        assert(0 <= k / 2 < b.len());
    }
}

/// The command that sets the service up holds its key, which is read back from
/// it, behind the name of the command.
pub proof fn service_command_holds_the_key(key: Seq<u8>)
    ensures
        has_part(add_onion_text(key), base64_from(key, 0)),
        "ADD_ONION ED25519-V3:"@.is_prefix_of(add_onion_text(key)),
        forall|i: int|
            0 <= i < key.len() ==> base64_byte(base64_from(key, 0), i) == #[trigger] key[i],
{
    let a = "ADD_ONION ED25519-V3:"@;
    let z = " Port=14101,127.0.0.1:14101\r\n"@;
    parts_are_held(a, base64_from(key, 0), z);
    assert(add_onion_text(key).subrange(0, a.len() as int) =~= a);
    base64_is_read_back(key);
}

/// The cookie's path is what stands in quotes behind its first name, wherever
/// that is in the reply.
pub proof fn cookie_path_is_found(front: Seq<char>, path: Seq<char>, rest: Seq<char>)
    requires
        forall|i: int| 0 <= i < path.len() ==> path[i] != '"',
        forall|j: int|
            0 <= j < front.len() ==> !#[trigger] part_at(
                front + "COOKIEFILE=\""@ + path + "\""@ + rest,
                "COOKIEFILE=\""@,
                j,
            ),
    ensures
        cookie_path_in(front + "COOKIEFILE=\""@ + path + "\""@ + rest) == Some(path),
{
    reveal_strlit("\"");
    let m = "COOKIEFILE=\""@;
    let q = "\""@;
    let s = front + m + path + q + rest;
    let start = front.len() as int + m.len();
    let end = start + path.len();
    text::first_part_is_found(s, m, 0);
    assert(s.subrange(front.len() as int, start) =~= m);
    assert(part_at(s, m, front.len() as int));
    assert(first_part(s, m, 0) == Some(front.len() as int));
    text::first_part_is_found(s, q, start);
    assert(s.subrange(end, end + 1) =~= q);
    assert(part_at(s, q, end));
    assert forall|j: int| start <= j < end implies !#[trigger] part_at(s, q, j) by {
        assert(s[j] == path[j - start]);
        if part_at(s, q, j) {
            assert(s.subrange(j, j + 1)[0] == q[0]);
        }
    }
    assert(first_part(s, q, start) == Some(end));
    assert(s.subrange(start, end) =~= path);
}

/// A reply without the name of the cookie has no path in it.
pub proof fn cookie_path_is_not_made_up(info: Seq<char>)
    requires
        !has_part(info, "COOKIEFILE=\""@),
    ensures
        cookie_path_in(info) is None,
{
    text::first_part_is_found(info, "COOKIEFILE=\""@, 0);
    if let Some(i) = first_part(info, "COOKIEFILE=\""@, 0) {
        assert(part_at(info, "COOKIEFILE=\""@, i));
    }
}

/// A line that names a service names the one that stands behind the name of the
/// field.
pub proof fn service_lines_name_their_service(id: Seq<char>)
    requires
        id.len() > 0,
        !is_space(id[0]),
        !is_space(id.last()),
    ensures
        service_id_of("250-ServiceID="@ + id) == Some(id),
        service_id_of("250 ServiceID="@ + id) == Some(id),
{
    reveal_strlit("250-ServiceID=");
    reveal_strlit("250 ServiceID=");
    let a = "250-ServiceID="@;
    let b = "250 ServiceID="@;
    assert((a + id).subrange(0, a.len() as int) =~= a);
    assert((a + id).skip(a.len() as int) =~= id);
    assert((b + id).subrange(0, b.len() as int) =~= b);
    assert((b + id).skip(b.len() as int) =~= id);
    assert(!a.is_prefix_of(b + id)) by {
        assert((b + id)[3] == ' ');
        assert(a[3] == '-');
        if a.is_prefix_of(b + id) {
            assert((b + id).subrange(0, a.len() as int)[3] == a[3]);
        }
    }
    assert(trim_spec(id) == id) by {
        trim_is_exact(id);
    }
}

/// The service is the one that the first line with a name names, wherever that
/// line stands.
pub proof fn first_service_line_decides(lines: Seq<Seq<char>>, i: int)
    requires
        0 <= i < lines.len(),
        service_id_of(lines[i]) is Some,
        forall|j: int| 0 <= j < i ==> service_id_of(#[trigger] lines[j]) is None,
    ensures
        service_id_from(lines, 0) == service_id_of(lines[i]),
{
    lemma_service_from(lines, 0, i);
}

proof fn lemma_service_from(lines: Seq<Seq<char>>, from: int, i: int)
    requires
        0 <= from <= i < lines.len(),
        service_id_of(lines[i]) is Some,
        forall|j: int| from <= j < i ==> service_id_of(#[trigger] lines[j]) is None,
    ensures
        service_id_from(lines, from) == service_id_of(lines[i]),
    decreases i - from,
{
    if from < i {
        assert(service_id_of(lines[from]) is None);
        lemma_service_from(lines, from + 1, i);
    }
}

} // verus!
