use vstd::prelude::*;

use vstd::utf8::{decode_utf8, valid_utf8};

use crate::address::{endpoint_text, host_text, Addr};
use crate::dial::{dial_plan, plan_matches, DialPlan};
use crate::error::ProxyError;
use crate::reply::{addr_fits_wire, port_bytes, success_reply_bytes, ATYP_DOMAIN, ATYP_V4, ATYP_V6};
use crate::text::decimal;

verus! {

/// The protocol version this proxy speaks.
pub const VERSION: u8 = 5;
/// The method code of username/password authentication.
pub const METHOD_USER_PASS: u8 = 2;
/// The sub-negotiation version of username/password authentication.
pub const AUTH_VERSION: u8 = 1;
/// The CONNECT command.
pub const CMD_CONNECT: u8 = 1;

/// The fixed username and password that clients offering username/password
/// authentication must present.
#[derive(Debug, Clone)]
pub struct Credentials {
    pub username: Vec<u8>,
    pub password: Vec<u8>,
}

/// Which field of the handshake the session waits for.
#[derive(Debug, Clone, Copy, PartialEq, Eq, Structural)]
pub enum Phase {
    /// Version and method count.
    Greeting,
    /// The offered method codes.
    Methods,
    /// Sub-negotiation version and username length.
    AuthHeader,
    /// The username.
    Username,
    /// The password length; `user_ok` tells whether the username matched.
    PasswordLen { user_ok: bool },
    /// The password.
    Password { user_ok: bool },
    /// Version, command, reserved byte and address type.
    Request,
    /// Four IPv4 address bytes.
    V4Addr,
    /// Sixteen IPv6 address bytes.
    V6Addr,
    /// The length of a domain name.
    DomainLen,
    /// The bytes of a domain name.
    DomainName,
    /// The port, high byte first.
    Port,
    /// Nothing more: the session has connected or failed.
    Done,
}

/// What the connection does next.
#[derive(Debug, Clone)]
pub enum Next {
    /// Read exactly this many bytes from the client and feed them back.
    Read(usize),
    /// Dial the target by this plan; the address and port are those requested.
    Connect { addr: Addr, port: u16, plan: DialPlan },
    /// Close the connection.
    Close(ProxyError),
}

/// The outcome of one step: bytes to write to the client first, then what follows.
#[derive(Debug, Clone)]
pub struct Step {
    pub reply: Vec<u8>,
    pub next: Next,
}

/// The handshake of one client connection, one field at a time.
pub struct Session {
    pub phase: Phase,
    pub credentials: Credentials,
    /// The number of bytes the current phase waits for.
    pub wanted: usize,
    /// The address read so far, once the request has named one.
    pub addr: Option<Addr>,
}

/// What follows a step, as `handshake_step` states it: the number of bytes
/// to read next (`Ok(Some(n))`), a connection (`Ok(None)`), or the error that
/// closes the connection (`Err`).
pub open spec fn wanted_next(next: Next) -> Result<Option<nat>, ProxyError> {
    match next {
        Next::Read(n) => Ok(Some(n as nat)),
        Next::Connect { .. } => Ok(None),
        Next::Close(e) => Err(e),
    }
}

/// The reply to the offered methods: username/password where offered, and
/// otherwise "no authentication", whatever was offered.
pub open spec fn method_reply(methods: Seq<u8>) -> Seq<u8> {
    if methods.contains(METHOD_USER_PASS) {
        seq![VERSION, METHOD_USER_PASS]
    } else {
        seq![VERSION, 0u8]
    }
}

/// One step of the handshake before the port: phase, input and credentials
/// give the next phase, the reply and what follows.
pub open spec fn handshake_step(phase: Phase, input: Seq<u8>, user: Seq<u8>, pass: Seq<u8>) -> (
    Phase,
    Seq<u8>,
    Result<Option<nat>, ProxyError>,
) {
    match phase {
        Phase::Greeting => if input[0] != VERSION {
            (Phase::Done, seq![], Err(ProxyError::ProtocolViolation))
        } else {
            (Phase::Methods, seq![], Ok(Some(input[1] as nat)))
        },
        Phase::Methods => if input.contains(METHOD_USER_PASS) {
            (Phase::AuthHeader, method_reply(input), Ok(Some(2)))
        } else {
            (Phase::Request, method_reply(input), Ok(Some(4)))
        },
        Phase::AuthHeader => if input[0] != AUTH_VERSION {
            (Phase::Done, seq![], Err(ProxyError::ProtocolViolation))
        } else if input[1] as nat != user.len() {
            (Phase::Done, seq![1u8, 1u8], Err(ProxyError::AuthFailure))
        } else {
            (Phase::Username, seq![], Ok(Some(input[1] as nat)))
        },
        Phase::Username => (Phase::PasswordLen { user_ok: input == user }, seq![], Ok(Some(1))),
        Phase::PasswordLen { user_ok } => if input[0] as nat != pass.len() {
            (Phase::Done, seq![1u8, 1u8], Err(ProxyError::AuthFailure))
        } else {
            (Phase::Password { user_ok }, seq![], Ok(Some(input[0] as nat)))
        },
        Phase::Password { user_ok } => if user_ok && input == pass {
            (Phase::Request, seq![1u8, 0u8], Ok(Some(4)))
        } else {
            (Phase::Done, seq![1u8, 1u8], Err(ProxyError::AuthFailure))
        },
        Phase::Request => if input[0] != VERSION || input[1] != CMD_CONNECT {
            (Phase::Done, seq![], Err(ProxyError::ProtocolViolation))
        } else if input[3] == ATYP_V4 {
            (Phase::V4Addr, seq![], Ok(Some(4)))
        } else if input[3] == ATYP_V6 {
            (Phase::V6Addr, seq![], Ok(Some(16)))
        } else if input[3] == ATYP_DOMAIN {
            (Phase::DomainLen, seq![], Ok(Some(1)))
        } else {
            (Phase::Done, seq![], Err(ProxyError::ProtocolViolation))
        },
        Phase::V4Addr => (Phase::Port, seq![], Ok(Some(2))),
        Phase::V6Addr => (Phase::Port, seq![], Ok(Some(2))),
        Phase::DomainLen => (Phase::DomainName, seq![], Ok(Some(input[0] as nat))),
        Phase::DomainName => (Phase::Port, seq![], Ok(Some(2))),
        Phase::Port => (Phase::Done, seq![], Ok(None)),
        Phase::Done => (Phase::Done, seq![], Err(ProxyError::ProtocolViolation)),
    }
}

/// The address that an address phase reads from its input.
pub open spec fn addr_read(phase: Phase, input: Seq<u8>, a: Addr) -> bool {
    match phase {
        Phase::V4Addr => a matches Addr::V4(b) && b@ == input,
        Phase::V6Addr => a matches Addr::V6(b) && b@ == input,
        Phase::DomainName => a matches Addr::Domain(d) && d@ == input,
        _ => false,
    }
}

/// The port that two bytes encode, high byte first.
pub open spec fn port_of(input: Seq<u8>) -> u16 {
    (input[0] as nat * 256 + input[1] as nat) as u16
}

impl Session {
    /// The invariant: each fixed-size field is waited for with its size, a
    /// domain name is at most 255 bytes, and the address is present exactly in
    /// the port phase.
    pub open spec fn wf(&self) -> bool {
        &&& (self.phase == Phase::Port <==> self.addr is Some)
        &&& (self.addr matches Some(a) ==> addr_fits_wire(a))
        &&& (self.phase == Phase::Greeting ==> self.wanted == 2)
        &&& (self.phase == Phase::AuthHeader ==> self.wanted == 2)
        &&& (self.phase is PasswordLen ==> self.wanted == 1)
        &&& (self.phase == Phase::Request ==> self.wanted == 4)
        &&& (self.phase == Phase::V4Addr ==> self.wanted == 4)
        &&& (self.phase == Phase::V6Addr ==> self.wanted == 16)
        &&& (self.phase == Phase::DomainLen ==> self.wanted == 1)
        &&& (self.phase == Phase::DomainName ==> self.wanted <= 255)
        &&& (self.phase == Phase::Port ==> self.wanted == 2)
    }

    /// A session waiting for the client's greeting.
    pub fn new(credentials: Credentials) -> (r: Session)
        ensures
            r.wf(),
            r.phase == Phase::Greeting,
            r.wanted == 2,
            r.credentials == credentials,
    {
        Session { phase: Phase::Greeting, credentials, wanted: 2, addr: None }
    }
}

/// Whether `bytes` holds `b`.
fn contains_byte(bytes: &[u8], b: u8) -> (r: bool)
    ensures
        r == bytes@.contains(b),
{
    let mut i: usize = 0;
    while i < bytes.len()
        invariant
            i <= bytes@.len(),
            forall|j: int| 0 <= j < i ==> bytes@[j] != b,
        decreases bytes@.len() - i,
    {
        if bytes[i] == b {
            return true;
        }
        i = i + 1;
    }
    false
}

/// Whether two byte strings are equal.
fn bytes_equal(a: &[u8], b: &[u8]) -> (r: bool)
    ensures
        r == (a@ == b@),
{
    if a.len() != b.len() {
        return false;
    }
    let mut i: usize = 0;
    while i < a.len()
        invariant
            i <= a@.len(),
            a@.len() == b@.len(),
            forall|j: int| 0 <= j < i ==> a@[j] == b@[j],
        decreases a@.len() - i,
    {
        if a[i] != b[i] {
            return false;
        }
        i = i + 1;
    }
    assert(a@ =~= b@);
    true
}

/// A vector holding a copy of the slice's bytes.
fn to_vec(bytes: &[u8]) -> (r: Vec<u8>)
    ensures
        r@ == bytes@,
{
    let mut r: Vec<u8> = Vec::new();
    let mut i: usize = 0;
    while i < bytes.len()
        invariant
            i <= bytes@.len(),
            r@ == bytes@.subrange(0, i as int),
        decreases bytes@.len() - i,
    {
        r.push(bytes[i]);
        assert(r@ =~= bytes@.subrange(0, i + 1));
        i = i + 1;
    }
    assert(bytes@.subrange(0, bytes@.len() as int) =~= bytes@);
    r
}

impl Session {
    fn read(&mut self, phase: Phase, reply: Vec<u8>, n: usize) -> (r: Step)
        ensures
            final(self).phase == phase,
            final(self).wanted == n,
            final(self).credentials == old(self).credentials,
            final(self).addr == old(self).addr,
            r.reply == reply,
            r.next == Next::Read(n),
    {
        self.phase = phase;
        self.wanted = n;
        Step { reply, next: Next::Read(n) }
    }

    fn close(&mut self, reply: Vec<u8>, e: ProxyError) -> (r: Step)
        ensures
            final(self).phase == Phase::Done,
            final(self).wanted == 0,
            final(self).credentials == old(self).credentials,
            final(self).addr == old(self).addr,
            r.reply == reply,
            r.next == Next::Close(e),
    {
        self.phase = Phase::Done;
        self.wanted = 0;
        Step { reply, next: Next::Close(e) }
    }

    /// Takes the field the session waits for and decides what follows. Before
    /// the port, the step is `handshake_step`. After the port, the session
    /// connects to the requested address and port, unless the address is a
    /// domain that is not UTF-8, which closes the connection with
    /// `EncodingError`. Failed credentials, of wrong length or content, are
    /// answered with `[1, 1]`; every other failure writes nothing.
    pub fn feed(&mut self, input: &[u8]) -> (r: Step)
        requires
            old(self).wf(),
            old(self).phase != Phase::Done,
            input@.len() == old(self).wanted,
        ensures
            final(self).wf(),
            final(self).credentials == old(self).credentials,
            wanted_next(r.next) matches Ok(Some(n)) ==> final(self).wanted == n,
            old(self).phase != Phase::Port ==> {
                let (phase, reply, next) = handshake_step(
                    old(self).phase,
                    input@,
                    old(self).credentials.username@,
                    old(self).credentials.password@,
                );
                &&& final(self).phase == phase
                &&& r.reply@ == reply
                &&& wanted_next(r.next) == next
                &&& (phase == Phase::Port ==> (final(self).addr matches Some(a) && addr_read(
                    old(self).phase,
                    input@,
                    a,
                )))
            },
            old(self).phase == Phase::Port ==> {
                let a = old(self).addr.unwrap();
                &&& final(self).phase == Phase::Done
                &&& r.reply@.len() == 0
                &&& match host_text(a) {
                    None => r.next == Next::Close(ProxyError::EncodingError),
                    Some(_) => r.next matches Next::Connect { addr, port, plan } && addr == a
                        && port == port_of(input@) && plan_matches(a, port, plan),
                }
            },
    {
        let user_len = self.credentials.username.len();
        let pass_len = self.credentials.password.len();
        match self.phase {
            Phase::Greeting => {
                if input[0] != VERSION {
                    self.close(Vec::new(), ProxyError::ProtocolViolation)
                } else {
                    self.read(Phase::Methods, Vec::new(), input[1] as usize)
                }
            },
            Phase::Methods => {
                if contains_byte(input, METHOD_USER_PASS) {
                    let reply = vec![VERSION, METHOD_USER_PASS];
                    assert(reply@ =~= method_reply(input@));
                    self.read(Phase::AuthHeader, reply, 2)
                } else {
                    let reply = vec![VERSION, 0u8];
                    assert(reply@ =~= method_reply(input@));
                    self.read(Phase::Request, reply, 4)
                }
            },
            Phase::AuthHeader => {
                if input[0] != AUTH_VERSION {
                    self.close(Vec::new(), ProxyError::ProtocolViolation)
                } else if input[1] as usize != user_len {
                    let reply = vec![1u8, 1u8];
                    assert(reply@ =~= seq![1u8, 1u8]);
                    self.close(reply, ProxyError::AuthFailure)
                } else {
                    self.read(Phase::Username, Vec::new(), input[1] as usize)
                }
            },
            Phase::Username => {
                let user_ok = bytes_equal(input, self.credentials.username.as_slice());
                self.read(Phase::PasswordLen { user_ok }, Vec::new(), 1)
            },
            Phase::PasswordLen { user_ok } => {
                if input[0] as usize != pass_len {
                    let reply = vec![1u8, 1u8];
                    assert(reply@ =~= seq![1u8, 1u8]);
                    self.close(reply, ProxyError::AuthFailure)
                } else {
                    self.read(Phase::Password { user_ok }, Vec::new(), input[0] as usize)
                }
            },
            Phase::Password { user_ok } => {
                if user_ok && bytes_equal(input, self.credentials.password.as_slice()) {
                    let reply = vec![1u8, 0u8];
                    assert(reply@ =~= seq![1u8, 0u8]);
                    self.read(Phase::Request, reply, 4)
                } else {
                    let reply = vec![1u8, 1u8];
                    assert(reply@ =~= seq![1u8, 1u8]);
                    self.close(reply, ProxyError::AuthFailure)
                }
            },
            Phase::Request => {
                if input[0] != VERSION || input[1] != CMD_CONNECT {
                    self.close(Vec::new(), ProxyError::ProtocolViolation)
                } else if input[3] == ATYP_V4 {
                    self.read(Phase::V4Addr, Vec::new(), 4)
                } else if input[3] == ATYP_V6 {
                    self.read(Phase::V6Addr, Vec::new(), 16)
                } else if input[3] == ATYP_DOMAIN {
                    self.read(Phase::DomainLen, Vec::new(), 1)
                } else {
                    self.close(Vec::new(), ProxyError::ProtocolViolation)
                }
            },
            Phase::V4Addr => {
                let b: [u8; 4] = [input[0], input[1], input[2], input[3]];
                assert(b@ =~= input@);
                self.addr = Some(Addr::V4(b));
                self.read(Phase::Port, Vec::new(), 2)
            },
            Phase::V6Addr => {
                let b: [u8; 16] = [
                    input[0], input[1], input[2], input[3], input[4], input[5], input[6], input[7],
                    input[8], input[9], input[10], input[11], input[12], input[13], input[14], input[15],
                ];
                assert(b@ =~= input@);
                self.addr = Some(Addr::V6(b));
                self.read(Phase::Port, Vec::new(), 2)
            },
            Phase::DomainLen => self.read(Phase::DomainName, Vec::new(), input[0] as usize),
            Phase::DomainName => {
                self.addr = Some(Addr::Domain(to_vec(input)));
                self.read(Phase::Port, Vec::new(), 2)
            },
            Phase::Port => {
                let port: u16 = (input[0] as u16) * 256 + (input[1] as u16);
                let addr = self.addr.take().unwrap();
                let step = match dial_plan(&addr, port) {
                    Ok(plan) => {
                        self.phase = Phase::Done;
                        self.wanted = 0;
                        Step { reply: Vec::new(), next: Next::Connect { addr, port, plan } }
                    },
                    Err(e) => self.close(Vec::new(), e),
                };
                step
            },
            Phase::Done => self.close(Vec::new(), ProxyError::ProtocolViolation),
        }
    }
}

/// The phase reached and the bytes written when the fields in `inputs` are
/// fed one after another from `phase`, until the session stops or needs the port.
pub open spec fn handshake_run(phase: Phase, inputs: Seq<Seq<u8>>, user: Seq<u8>, pass: Seq<u8>) -> (
    Phase,
    Seq<u8>,
)
    decreases inputs.len(),
{
    if inputs.len() == 0 || phase == Phase::Done || phase == Phase::Port {
        (phase, Seq::empty())
    } else {
        let (next, reply, _) = handshake_step(phase, inputs[0], user, pass);
        let (last, rest) = handshake_run(next, inputs.drop_first(), user, pass);
        (last, reply + rest)
    }
}

/// A closed session stays closed and writes nothing, whatever is fed.
pub proof fn lemma_done_is_silent(inputs: Seq<Seq<u8>>, user: Seq<u8>, pass: Seq<u8>)
    ensures
        handshake_run(Phase::Done, inputs, user, pass) == (Phase::Done, Seq::<u8>::empty()),
{
}

proof fn lemma_run_first(
    phase: Phase,
    first: Seq<u8>,
    rest: Seq<Seq<u8>>,
    user: Seq<u8>,
    pass: Seq<u8>,
)
    requires
        phase != Phase::Done,
        phase != Phase::Port,
    ensures
        ({
            let (next, reply, _) = handshake_step(phase, first, user, pass);
            let (last, more) = handshake_run(next, rest, user, pass);
            handshake_run(phase, seq![first] + rest, user, pass) == (last, reply + more)
        }),
{
    let inputs = seq![first] + rest;
    assert(inputs[0] == first);
    assert(inputs.drop_first() =~= rest);
}

/// A greeting that does not offer username/password is answered with
/// "no authentication", whichever methods it offers, and the request follows.
pub proof fn lemma_no_auth_offered(n: u8, methods: Seq<u8>, user: Seq<u8>, pass: Seq<u8>)
    requires
        methods.len() == n,
        !methods.contains(METHOD_USER_PASS),
    ensures
        handshake_run(Phase::Greeting, seq![seq![VERSION, n], methods], user, pass) == (
            Phase::Request,
            seq![VERSION, 0u8],
        ),
{
    let g = seq![VERSION, n];
    lemma_run_first(Phase::Greeting, g, seq![methods], user, pass);
    assert(seq![g] + seq![methods] =~= seq![g, methods]);
    lemma_run_first(Phase::Methods, methods, Seq::empty(), user, pass);
    assert(seq![methods] + Seq::<Seq<u8>>::empty() =~= seq![methods]);
    assert(seq![VERSION, 0u8] + Seq::<u8>::empty() =~= seq![VERSION, 0u8]);
    assert(Seq::<u8>::empty() + seq![VERSION, 0u8] =~= seq![VERSION, 0u8]);
}

/// The fields of a username/password negotiation: greeting, methods,
/// sub-negotiation header, username, password length, password.
pub open spec fn auth_inputs(n: u8, methods: Seq<u8>, username: Seq<u8>, password: Seq<u8>) -> Seq<
    Seq<u8>,
> {
    seq![
        seq![VERSION, n],
        methods,
        seq![AUTH_VERSION, username.len() as u8],
        username,
        seq![password.len() as u8],
        password,
    ]
}

/// Where username/password is offered, the client is accepted exactly when
/// both fields equal the configured pair, length and bytes. Any mismatch is
/// answered with a failure and then nothing more is read or written,
/// whatever the client sends.
pub proof fn lemma_credentials(
    n: u8,
    methods: Seq<u8>,
    username: Seq<u8>,
    password: Seq<u8>,
    rest: Seq<Seq<u8>>,
    user: Seq<u8>,
    pass: Seq<u8>,
)
    requires
        methods.len() == n,
        methods.contains(METHOD_USER_PASS),
        username.len() <= 255,
        password.len() <= 255,
    ensures
        username == user && password == pass ==> handshake_run(
            Phase::Greeting,
            auth_inputs(n, methods, username, password),
            user,
            pass,
        ) == (Phase::Request, seq![VERSION, METHOD_USER_PASS, 1u8, 0u8]),
        !(username == user && password == pass) ==> handshake_run(
            Phase::Greeting,
            auth_inputs(n, methods, username, password) + rest,
            user,
            pass,
        ) == (Phase::Done, seq![VERSION, METHOD_USER_PASS, 1u8, 1u8]),
{
    let ok = username == user && password == pass;
    let tail = if ok { Seq::<Seq<u8>>::empty() } else { rest };
    let g = seq![VERSION, n];
    let h = seq![AUTH_VERSION, username.len() as u8];
    let pl = seq![password.len() as u8];
    let after_password = tail;
    let after_pl = seq![password] + after_password;
    let after_username = seq![pl] + after_pl;
    let after_h = seq![username] + after_username;
    let after_methods = seq![h] + after_h;
    let after_g = seq![methods] + after_methods;
    assert(auth_inputs(n, methods, username, password) + tail =~= seq![g] + after_g);
    if ok {
        assert(auth_inputs(n, methods, username, password) + tail =~= auth_inputs(n, methods, username, password));
    }
    let user_ok = username == user;
    let e = Seq::<u8>::empty();
    let fail = seq![1u8, 1u8];
    let head = seq![VERSION, METHOD_USER_PASS];
    lemma_run_first(Phase::Greeting, g, after_g, user, pass);
    lemma_run_first(Phase::Methods, methods, after_methods, user, pass);
    lemma_run_first(Phase::AuthHeader, h, after_h, user, pass);
    if username.len() != user.len() {
        lemma_done_is_silent(after_h, user, pass);
        assert(e + (head + (fail + e)) =~= head + fail);
    } else {
        lemma_run_first(Phase::Username, username, after_username, user, pass);
        if password.len() != pass.len() {
            lemma_run_first(Phase::PasswordLen { user_ok }, pl, after_pl, user, pass);
            lemma_done_is_silent(after_pl, user, pass);
            assert(e + (head + (e + (e + (fail + e)))) =~= head + fail);
        } else {
            lemma_run_first(Phase::PasswordLen { user_ok }, pl, after_pl, user, pass);
            lemma_run_first(Phase::Password { user_ok }, password, after_password, user, pass);
            let status: u8 = if ok { 0 } else { 1 };
            if !ok {
                lemma_done_is_silent(tail, user, pass);
            }
            assert(e + (head + (e + (e + (e + (seq![1u8, status] + e))))) =~= head + seq![1u8, status]);
        }
    }
    assert(head + fail =~= seq![VERSION, METHOD_USER_PASS, 1u8, 1u8]);
    assert(head + seq![1u8, 0u8] =~= seq![VERSION, METHOD_USER_PASS, 1u8, 0u8]);
}

/// A request whose command is not CONNECT, or whose address type is not
/// known, ends the session as soon as its header is read: nothing is written
/// and nothing more is read.
pub proof fn lemma_bad_request_is_silent(header: Seq<u8>, rest: Seq<Seq<u8>>, user: Seq<u8>, pass: Seq<u8>)
    requires
        header.len() == 4,
        header[1] != CMD_CONNECT || (header[3] != ATYP_V4 && header[3] != ATYP_V6 && header[3] != ATYP_DOMAIN),
    ensures
        handshake_run(Phase::Request, seq![header] + rest, user, pass) == (Phase::Done, Seq::<u8>::empty()),
        handshake_step(Phase::Request, header, user, pass).2 == Err::<Option<nat>, ProxyError>(ProxyError::ProtocolViolation),
{
    lemma_run_first(Phase::Request, header, rest, user, pass);
    lemma_done_is_silent(rest, user, pass);
    assert(Seq::<u8>::empty() + Seq::<u8>::empty() =~= Seq::<u8>::empty());
}

/// The success reply echoes the address exactly as the request carried it,
/// type code first, and ends with the given local port, high byte first.
pub proof fn lemma_reply_echoes_request(phase: Phase, input: Seq<u8>, a: Addr, local_port: u16)
    requires
        addr_read(phase, input, a),
    ensures
        phase == Phase::V4Addr ==> success_reply_bytes(a, local_port) == seq![5u8, 0u8, 0u8, ATYP_V4]
            + input + port_bytes(local_port),
        phase == Phase::V6Addr ==> success_reply_bytes(a, local_port) == seq![5u8, 0u8, 0u8, ATYP_V6]
            + input + port_bytes(local_port),
        phase == Phase::DomainName ==> success_reply_bytes(a, local_port) == seq![
            5u8,
            0u8,
            0u8,
            ATYP_DOMAIN,
            input.len() as u8,
        ] + input + port_bytes(local_port),
{
    match a {
        Addr::V4(b) => {
            assert(seq![5u8, 0u8, 0u8] + (seq![ATYP_V4] + b@) =~= seq![5u8, 0u8, 0u8, ATYP_V4] + b@);
        },
        Addr::V6(b) => {
            assert(seq![5u8, 0u8, 0u8] + (seq![ATYP_V6] + b@) =~= seq![5u8, 0u8, 0u8, ATYP_V6] + b@);
        },
        Addr::Domain(d) => {
            assert(seq![5u8, 0u8, 0u8] + (seq![ATYP_DOMAIN, d@.len() as u8] + d@) =~= seq![
                5u8,
                0u8,
                0u8,
                ATYP_DOMAIN,
                d@.len() as u8,
            ] + d@);
        },
    }
}

/// A domain name read from a request is rendered as its bytes decoded as
/// UTF-8 text where they are valid, and is refused otherwise.
pub proof fn lemma_domain_text(input: Seq<u8>, a: Addr, port: u16)
    requires
        addr_read(Phase::DomainName, input, a),
    ensures
        valid_utf8(input) ==> host_text(a) == Some(decode_utf8(input)),
        valid_utf8(input) ==> endpoint_text(a, port) == Some(
            decode_utf8(input).push(':') + decimal(port as nat),
        ),
        !valid_utf8(input) ==> host_text(a) is None && endpoint_text(a, port) is None,
{
}

} // verus!
