//! The SOCKS5 dialog with Tor. The peer's address is the user name, so that
//! every peer gets a circuit of its own.
use crate::bytes;
use crate::text;
use crate::text::number_in;
use vstd::prelude::*;
use vstd::utf8::encode_utf8;

verus! {

/// Why a connection cannot be made.
#[derive(Debug, Clone, Copy, PartialEq, Eq, Structural)]
pub enum SocksError {
    /// The target has no port.
    NoPort,
    /// The target's port is no port number.
    BadPort,
    /// The proxy does not take a user name; what it answered.
    MethodRejected(u8, u8),
    /// The target is too long for a user name.
    UserTooLong,
    /// The proxy refused the user name; what it answered.
    AuthRejected(u8, u8),
    /// The host name is too long.
    HostTooLong,
    /// The proxy could not connect; its code.
    ConnectFailed(u8),
}

/// Where the dialog stands: what is read next.
#[derive(Debug, Clone, Copy, PartialEq, Eq, Structural)]
pub enum Stage {
    /// The choice of a method.
    Method,
    /// The answer to the user name.
    Auth,
    /// The head of the answer to the request.
    Reply,
    /// The length of the bound host name.
    DomainLength,
    /// The rest of the answer, this many bytes.
    Bound(usize),
    /// Nothing: the stream belongs to the peer.
    Connected,
}

/// Where the last colon stands before `to`.
pub open spec fn last_colon(s: Seq<char>, to: int) -> Option<int>
    decreases to,
{
    if to <= 0 || to > s.len() {
        None
    } else if s[to - 1] == ':' {
        Some(to - 1)
    } else {
        last_colon(s, to - 1)
    }
}

/// Host and port of a target, or what is wrong with it.
pub open spec fn target_parts(target: Seq<char>) -> Result<(Seq<char>, u16), SocksError> {
    match last_colon(target, target.len() as int) {
        None => Err(SocksError::NoPort),
        Some(i) => match number_in(target.skip(i + 1), 65535) {
            None => Err(SocksError::BadPort),
            Some(port) => Ok((target.take(i), port as u16)),
        },
    }
}

/// Splits a target into host and port.
pub fn parse_target(target: &str) -> (r: Result<(String, u16), SocksError>)
    ensures
        match r {
            Ok((host, port)) => target_parts(target@) == Ok::<(Seq<char>, u16), SocksError>(
                (host@, port),
            ),
            Err(e) => target_parts(target@) == Err::<(Seq<char>, u16), SocksError>(e),
        },
{
    let v = text::chars_of(target);
    let mut i: usize = v.len();
    while i > 0 && v[i - 1] != ':'
        invariant
            i <= v@.len(),
            v@ == target@,
            last_colon(target@, target@.len() as int) == last_colon(target@, i as int),
        decreases i,
    {
        i = i - 1;
    }
    if i == 0 {
        return Err(SocksError::NoPort);
    }
    let port_text = text::text_of(&v, i, v.len());
    assert(port_text@ =~= target@.skip(i as int));
    match text::number(port_text.as_str(), 65535) {
        None => Err(SocksError::BadPort),
        Some(port) => {
            let host = text::text_of(&v, 0, i - 1);
            assert(host@ =~= target@.take(i - 1));
            Ok((host, port as u16))
        },
    }
}

/// The dialog about one connection.
pub struct Dialog {
    pub target: String,
    pub host: String,
    pub port: u16,
    pub stage: Stage,
}

/// What a [`Dialog`] means.
#[verifier::ext_equal]
pub struct DialogView {
    pub target: Seq<char>,
    pub host: Seq<char>,
    pub port: u16,
    pub stage: Stage,
}

impl View for Dialog {
    type V = DialogView;

    open spec fn view(&self) -> DialogView {
        DialogView {
            target: self.target@,
            host: self.host@,
            port: self.port,
            stage: self.stage,
        }
    }
}

/// The greeting: version 5, one method, user name and password.
pub open spec fn greeting() -> Seq<u8> {
    seq![5u8, 1u8, 2u8]
}

/// The user name: the target, with a password of one zero byte.
pub open spec fn auth_bytes(target: Seq<char>) -> Seq<u8> {
    let user = encode_utf8(target);
    seq![1u8, user.len() as u8] + user + seq![1u8, 0u8]
}

/// The request: connect to a domain name and port.
pub open spec fn request_bytes(host: Seq<char>, port: u16) -> Seq<u8> {
    let name = encode_utf8(host);
    seq![5u8, 1u8, 0u8, 3u8, name.len() as u8] + name + seq![(port / 256) as u8, (port % 256) as u8]
}

/// How many bytes a stage reads.
pub open spec fn wanted(stage: Stage) -> int {
    match stage {
        Stage::Method => 2,
        Stage::Auth => 2,
        Stage::Reply => 4,
        Stage::DomainLength => 1,
        Stage::Bound(n) => n as int,
        Stage::Connected => 0,
    }
}

/// What follows the head of an answer, by the type of its address.
pub open spec fn after_reply(atyp: u8) -> Stage {
    if atyp == 1 {
        Stage::Bound(6)
    } else if atyp == 3 {
        Stage::DomainLength
    } else if atyp == 4 {
        Stage::Bound(18)
    } else {
        Stage::Connected
    }
}

/// What the proxy's bytes make of the dialog: the next stage and what is sent,
/// or why it ends.
pub open spec fn dialog_step(d: DialogView, input: Seq<u8>) -> Result<
    (Stage, Seq<u8>),
    SocksError,
> {
    match d.stage {
        Stage::Method => if input[0] != 5 || input[1] != 2 {
            Err(SocksError::MethodRejected(input[0], input[1]))
        } else if encode_utf8(d.target).len() > 255 {
            Err(SocksError::UserTooLong)
        } else {
            Ok((Stage::Auth, auth_bytes(d.target)))
        },
        Stage::Auth => if input[1] != 0 {
            Err(SocksError::AuthRejected(input[0], input[1]))
        } else if encode_utf8(d.host).len() > 255 {
            Err(SocksError::HostTooLong)
        } else {
            Ok((Stage::Reply, request_bytes(d.host, d.port)))
        },
        Stage::Reply => if input[1] != 0 {
            Err(SocksError::ConnectFailed(input[1]))
        } else {
            Ok((after_reply(input[3]), seq![]))
        },
        Stage::DomainLength => Ok((Stage::Bound((input[0] + 2) as usize), seq![])),
        Stage::Bound(_) => Ok((Stage::Connected, seq![])),
        Stage::Connected => Ok((Stage::Connected, seq![])),
    }
}

impl Dialog {
    /// Opens a dialog about a connection to `target`, which is a host and a
    /// port, and says what is sent first.
    pub fn open(target: &str) -> (r: Result<(Self, Vec<u8>), SocksError>)
        ensures
            match r {
                Ok((d, out)) => {
                    &&& target_parts(target@) matches Ok((host, port))
                    &&& d@ == (DialogView { target: target@, host, port, stage: Stage::Method })
                    &&& out@ == greeting()
                },
                Err(e) => target_parts(target@) == Err::<(Seq<char>, u16), SocksError>(e),
            },
    {
        match parse_target(target) {
            Ok((host, port)) => {
                let mut out: Vec<u8> = Vec::new();
                out.push(5);
                out.push(1);
                out.push(2);
                assert(out@ =~= greeting());
                Ok((Dialog { target: target.to_owned(), host, port, stage: Stage::Method }, out))
            },
            Err(e) => Err(e),
        }
    }

    /// How many bytes are read next.
    pub fn wants(&self) -> (r: usize)
        ensures
            r == wanted(self@.stage),
    {
        match self.stage {
            Stage::Method => 2,
            Stage::Auth => 2,
            Stage::Reply => 4,
            Stage::DomainLength => 1,
            Stage::Bound(n) => n,
            Stage::Connected => 0,
        }
    }

    /// Takes up the bytes that were wanted, and says what is sent next.
    pub fn advance(&mut self, input: &[u8]) -> (r: Result<Vec<u8>, SocksError>)
        requires
            input@.len() == wanted(old(self)@.stage),
        ensures
            match r {
                Ok(out) => {
                    &&& dialog_step(old(self)@, input@) matches Ok((stage, sent))
                    &&& out@ == sent
                    &&& final(self)@ == (DialogView { stage, ..old(self)@ })
                },
                Err(e) => {
                    &&& dialog_step(old(self)@, input@) == Err::<(Stage, Seq<u8>), SocksError>(e)
                    &&& final(self)@ == old(self)@
                },
            },
    {
        let mut out: Vec<u8> = Vec::new();
        match self.stage {
            Stage::Method => {
                if input[0] != 5 || input[1] != 2 {
                    return Err(SocksError::MethodRejected(input[0], input[1]));
                }
                let user = self.target.as_str().as_bytes();
                if user.len() > 255 {
                    return Err(SocksError::UserTooLong);
                }
                out.push(1);
                out.push(user.len() as u8);
                bytes::append(&mut out, user);
                out.push(1);
                out.push(0);
                assert(out@ =~= auth_bytes(self@.target));
                self.stage = Stage::Auth;
            },
            Stage::Auth => {
                if input[1] != 0 {
                    return Err(SocksError::AuthRejected(input[0], input[1]));
                }
                let name = self.host.as_str().as_bytes();
                if name.len() > 255 {
                    return Err(SocksError::HostTooLong);
                }
                out.push(5);
                out.push(1);
                out.push(0);
                out.push(3);
                out.push(name.len() as u8);
                bytes::append(&mut out, name);
                out.push((self.port / 256) as u8);
                out.push((self.port % 256) as u8);
                assert(out@ =~= request_bytes(self@.host, self@.port));
                self.stage = Stage::Reply;
            },
            Stage::Reply => {
                if input[1] != 0 {
                    return Err(SocksError::ConnectFailed(input[1]));
                }
                self.stage = match input[3] {
                    1 => Stage::Bound(6),
                    3 => Stage::DomainLength,
                    4 => Stage::Bound(18),
                    _ => Stage::Connected,
                };
            },
            Stage::DomainLength => {
                self.stage = Stage::Bound(input[0] as usize + 2);
            },
            Stage::Bound(_) => {
                self.stage = Stage::Connected;
            },
            Stage::Connected => {},
        }
        Ok(out)
    }
}

/// How far a dialog is from its end.
pub open spec fn steps_left(stage: Stage) -> nat {
    match stage {
        Stage::Method => 5,
        Stage::Auth => 4,
        Stage::Reply => 3,
        Stage::DomainLength => 2,
        Stage::Bound(_) => 1,
        Stage::Connected => 0,
    }
}

/// Every dialog ends: each answer of the proxy brings it nearer to the
/// connection, or ends it with an error.
pub proof fn dialog_makes_progress(d: DialogView, input: Seq<u8>)
    requires
        d.stage != Stage::Connected,
    ensures
        dialog_step(d, input) matches Ok((stage, _)) ==> steps_left(stage) < steps_left(d.stage),
{
}

/// Peers are kept apart: two targets that may be user names give the same
/// bytes only where they are the same.
pub proof fn peers_are_isolated(a: Seq<char>, b: Seq<char>)
    requires
        encode_utf8(a).len() <= 255,
        encode_utf8(b).len() <= 255,
        auth_bytes(a) == auth_bytes(b),
    ensures
        a == b,
{
    let x = encode_utf8(a);
    let y = encode_utf8(b);
    assert(auth_bytes(a).len() == x.len() + 4);
    assert(auth_bytes(b).len() == y.len() + 4);
    assert(auth_bytes(a).subrange(2, x.len() as int + 2) =~= x);
    assert(auth_bytes(b).subrange(2, y.len() as int + 2) =~= y);
    vstd::utf8::encode_utf8_decode_utf8(a);
    vstd::utf8::encode_utf8_decode_utf8(b);
}

} // verus!
