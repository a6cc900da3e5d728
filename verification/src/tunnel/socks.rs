//! The SOCKS5 side of the tunnels: what a connection's session answers at
//! each of its steps. Reading the client's messages and relaying the data are
//! left to the caller; the replies are encoded by `socks5_proto`.

use vstd::prelude::*;

verus! {

/// The version byte that starts every SOCKS5 message.
pub const SOCKS_VERSION: u8 = 5u8;

/// The authentication method "no authentication required".
pub const METHOD_NONE: u8 = 0u8;

/// The method byte that tells the client none of its methods is acceptable.
pub const METHOD_UNACCEPTABLE: u8 = 0xffu8;

/// The replies this server sends to a request.
#[derive(Debug, PartialEq, Eq, Structural, Clone, Copy)]
pub enum Reply {
    Succeeded,
    GeneralFailure,
    NetworkUnreachable,
    CommandNotSupported,
}

/// The reply code of the SOCKS5 protocol for `r`.
pub open spec fn reply_code(r: Reply) -> u8 {
    match r {
        Reply::Succeeded => 0x00,
        Reply::GeneralFailure => 0x01,
        Reply::NetworkUnreachable => 0x03,
        Reply::CommandNotSupported => 0x07,
    }
}

/// A reply message with the unspecified IPv4 address `0.0.0.0:0` as bound
/// address: version, reply code, a reserved zero, address type 1, four
/// address bytes and two port bytes.
pub open spec fn reply_bytes(r: Reply) -> Seq<u8> {
    seq![SOCKS_VERSION, reply_code(r), 0u8, 1u8, 0u8, 0u8, 0u8, 0u8, 0u8, 0u8]
}

/// The answer to a method negotiation: version and chosen method.
pub open spec fn method_reply_bytes(method: u8) -> Seq<u8> {
    seq![SOCKS_VERSION, method]
}

/// Encodes a reply to a request with the unspecified address as bound
/// address. Calls `socks5_proto::Response::write_to_buf` on
/// `Response::new(reply, Address::unspecified())`; that function writes the
/// version 5, the code of the reply, a zero byte and the address, which
/// `Address::write_to_buf` writes for `0.0.0.0:0` as the type byte 1, four
/// zero bytes and a zero port in two bytes.
#[verifier::external_body]
fn encode_reply(reply: Reply) -> (r: Vec<u8>)
    ensures
        r@ == reply_bytes(reply),
{
    let reply = match reply {
        Reply::Succeeded => socks5_proto::Reply::Succeeded,
        Reply::GeneralFailure => socks5_proto::Reply::GeneralFailure,
        Reply::NetworkUnreachable => socks5_proto::Reply::NetworkUnreachable,
        Reply::CommandNotSupported => socks5_proto::Reply::CommandNotSupported,
    };
    let mut buf: Vec<u8> = Vec::new();
    socks5_proto::Response::new(reply, socks5_proto::Address::unspecified()).write_to_buf(&mut buf);
    buf
}

/// Encodes the answer to a method negotiation. Calls
/// `socks5_proto::HandshakeResponse::write_to_buf` on
/// `HandshakeResponse::new(HandshakeMethod(method))`; that function writes
/// the version 5 and the method byte.
#[verifier::external_body]
fn encode_method_reply(method: u8) -> (r: Vec<u8>)
    ensures
        r@ == method_reply_bytes(method),
{
    let mut buf: Vec<u8> = Vec::new();
    socks5_proto::HandshakeResponse::new(socks5_proto::HandshakeMethod(method)).write_to_buf(
        &mut buf,
    );
    buf
}

/// The command of a client's request.
#[derive(Debug, PartialEq, Eq, Structural, Clone, Copy)]
pub enum Command {
    Connect,
    Bind,
    Associate,
}

/// A client's request: a command and the address it names.
pub struct Request {
    pub command: Command,
    pub host: String,
    pub port: u16,
}

/// Why a session ended without relaying.
#[derive(Debug, PartialEq, Eq, Structural, Clone, Copy)]
pub enum SocksError {
    /// The client offered no method this server accepts.
    NoAcceptableMethod,
    /// The client's request could not be read.
    BadRequest,
    /// The destination could not be reached.
    ConnectFailed,
}

/// What the caller does once the reply, if any, is sent.
pub enum Next {
    /// Read the client's request.
    ReadRequest,
    /// Open a connection to `host:port` and report whether it succeeded.
    Connect { host: String, port: u16 },
    /// Relay data between the client and the opened connection.
    Relay,
    /// End the session with this outcome.
    Close(Result<(), SocksError>),
}

/// A step of a session: the bytes to send to the client, then what to do.
pub struct Action {
    pub reply: Option<Vec<u8>>,
    pub next: Next,
}

/// Where a session stands.
#[derive(Debug, PartialEq, Eq, Structural, Clone, Copy)]
pub enum Phase {
    /// Waiting for the client's method negotiation.
    Greeting,
    /// Waiting for the client's request.
    Requesting,
    /// Waiting for the outcome of the connection the client asked for.
    Connecting,
    /// Relaying data.
    Relaying,
    /// Over.
    Finished,
}

pub open spec fn reply_view(r: Option<Vec<u8>>) -> Option<Seq<u8>> {
    match r {
        Some(b) => Some(b@),
        None => None,
    }
}

/// The server side of one SOCKS5 connection.
pub struct SocksSession {
    phase: Phase,
    sent: Ghost<Seq<Seq<u8>>>,
}

impl SocksSession {
    /// Where the session stands.
    pub closed spec fn phase(&self) -> Phase {
        self.phase
    }

    /// The replies the session has had sent, in order.
    pub closed spec fn sent(&self) -> Seq<Seq<u8>> {
        self.sent@
    }

    /// The replies sent so far are those that lead to the current phase.
    #[verifier::type_invariant]
    pub closed spec fn wf(&self) -> bool {
        match self.phase {
            Phase::Greeting => self.sent@.len() == 0,
            Phase::Requesting => self.sent@ == seq![method_reply_bytes(METHOD_NONE)],
            Phase::Connecting => self.sent@ == seq![method_reply_bytes(METHOD_NONE)],
            Phase::Relaying => self.sent@ == seq![
                method_reply_bytes(METHOD_NONE),
                reply_bytes(Reply::Succeeded),
            ],
            Phase::Finished => true,
        }
    }

    /// A session that has heard nothing from its client yet.
    pub fn new() -> (r: SocksSession)
        ensures
            r.phase() == Phase::Greeting,
            r.sent() == Seq::<Seq<u8>>::empty(),
    {
        SocksSession { phase: Phase::Greeting, sent: Ghost(Seq::empty()) }
    }

    /// Where the session stands.
    pub fn current_phase(&self) -> (r: Phase)
        ensures
            r == self.phase(),
    {
        self.phase
    }

    /// Answers the client's method negotiation: the session goes on only if
    /// the client offers to go without authentication.
    pub fn on_greeting(&mut self, methods: &Vec<u8>) -> (r: Action)
        requires
            old(self).phase() == Phase::Greeting,
        ensures
            final(self).sent() == match r.reply {
                Some(b) => old(self).sent().push(b@),
                None => old(self).sent(),
            },
            methods@.contains(METHOD_NONE) ==> reply_view(r.reply) == Some(
                method_reply_bytes(METHOD_NONE),
            ) && r.next is ReadRequest && final(self).phase() == Phase::Requesting,
            !methods@.contains(METHOD_NONE) ==> reply_view(r.reply) == Some(
                method_reply_bytes(METHOD_UNACCEPTABLE),
            ) && r.next == Next::Close(Err(SocksError::NoAcceptableMethod))
                && final(self).phase() == Phase::Finished,
    {
        proof {
            use_type_invariant(&*self);
        }
        let mut i: usize = 0;
        let mut offered: bool = false;
        while i < methods.len()
            invariant
                i <= methods@.len(),
                offered <==> exists|j: int| 0 <= j < i && methods@[j] == METHOD_NONE,
            decreases methods@.len() - i,
        {
            if methods[i] == METHOD_NONE {
                offered = true;
            }
            i = i + 1;
        }
        assert(offered <==> methods@.contains(METHOD_NONE));
        if offered {
            let reply = encode_method_reply(METHOD_NONE);
            assert(self.sent@.push(reply@) =~= seq![method_reply_bytes(METHOD_NONE)]);
            *self = SocksSession { phase: Phase::Requesting, sent: Ghost(self.sent@.push(reply@)) };
            Action { reply: Some(reply), next: Next::ReadRequest }
        } else {
            let reply = encode_method_reply(METHOD_UNACCEPTABLE);
            *self = SocksSession { phase: Phase::Finished, sent: Ghost(self.sent@.push(reply@)) };
            Action { reply: Some(reply), next: Next::Close(Err(SocksError::NoAcceptableMethod)) }
        }
    }

    /// Answers the client's request, or the failure to read it: a CONNECT
    /// request leads to a connection attempt; any other command is refused
    /// and ends the session; an unreadable request is answered with a
    /// general failure.
    pub fn on_request(&mut self, request: Result<Request, ()>) -> (r: Action)
        requires
            old(self).phase() == Phase::Requesting,
        ensures
            final(self).sent() == match r.reply {
                Some(b) => old(self).sent().push(b@),
                None => old(self).sent(),
            },
            match request {
                Err(_) => reply_view(r.reply) == Some(reply_bytes(Reply::GeneralFailure)) && r.next
                    == Next::Close(Err(SocksError::BadRequest)) && final(self).phase()
                    == Phase::Finished,
                Ok(q) => if q.command == Command::Connect {
                    &&& r.reply is None
                    &&& final(self).phase() == Phase::Connecting
                    &&& match r.next {
                        Next::Connect { host, port } => host@ == q.host@ && port == q.port,
                        _ => false,
                    }
                } else {
                    &&& reply_view(r.reply) == Some(reply_bytes(Reply::CommandNotSupported))
                    &&& r.next == Next::Close(Ok(()))
                    &&& final(self).phase() == Phase::Finished
                },
            },
    {
        proof {
            use_type_invariant(&*self);
        }
        match request {
            Err(()) => {
                let reply = encode_reply(Reply::GeneralFailure);
                *self = SocksSession { phase: Phase::Finished, sent: Ghost(self.sent@.push(reply@)) };
                Action { reply: Some(reply), next: Next::Close(Err(SocksError::BadRequest)) }
            },
            Ok(q) => match q.command {
                Command::Connect => {
                    *self = SocksSession { phase: Phase::Connecting, sent: self.sent };
                    Action { reply: None, next: Next::Connect { host: q.host, port: q.port } }
                },
                _ => {
                    let reply = encode_reply(Reply::CommandNotSupported);
                    *self = SocksSession { phase: Phase::Finished, sent: Ghost(self.sent@.push(reply@)) };
                    Action { reply: Some(reply), next: Next::Close(Ok(())) }
                },
            },
        }
    }

    /// Answers the outcome of the connection the client asked for: success
    /// is reported and data is relayed; failure is reported as an
    /// unreachable network and ends the session.
    pub fn on_connected(&mut self, connected: bool) -> (r: Action)
        requires
            old(self).phase() == Phase::Connecting,
        ensures
            connected ==> final(self).sent() == seq![
                method_reply_bytes(METHOD_NONE),
                reply_bytes(Reply::Succeeded),
            ],
            final(self).sent() == match r.reply {
                Some(b) => old(self).sent().push(b@),
                None => old(self).sent(),
            },
            connected ==> reply_view(r.reply) == Some(reply_bytes(Reply::Succeeded)) && r.next is Relay
                && final(self).phase() == Phase::Relaying,
            !connected ==> reply_view(r.reply) == Some(reply_bytes(Reply::NetworkUnreachable))
                && r.next == Next::Close(Err(SocksError::ConnectFailed)) && final(self).phase()
                == Phase::Finished,
    {
        proof {
            use_type_invariant(&*self);
        }
        if connected {
            let reply = encode_reply(Reply::Succeeded);
            assert(self.sent@.push(reply@) =~= seq![
                method_reply_bytes(METHOD_NONE),
                reply_bytes(Reply::Succeeded),
            ]);
            *self = SocksSession { phase: Phase::Relaying, sent: Ghost(self.sent@.push(reply@)) };
            Action { reply: Some(reply), next: Next::Relay }
        } else {
            let reply = encode_reply(Reply::NetworkUnreachable);
            *self = SocksSession { phase: Phase::Finished, sent: Ghost(self.sent@.push(reply@)) };
            Action { reply: Some(reply), next: Next::Close(Err(SocksError::ConnectFailed)) }
        }
    }
}

/// A session relays data only after it has told the client that no
/// authentication is needed and that the connection it asked for is open,
/// and it has sent nothing else.
pub proof fn law_relay_follows_success(s: &SocksSession)
    requires
        s.wf(),
    ensures
        s.phase() == Phase::Relaying ==> s.sent() == seq![
            method_reply_bytes(METHOD_NONE),
            reply_bytes(Reply::Succeeded),
        ],
{
}

/// What the accept loop of a tunnel server saw.
pub enum AcceptEvent {
    /// A client connected.
    Accepted,
    /// Accepting failed.
    Failed,
    /// The server was asked to shut down.
    Shutdown,
}

/// What the accept loop does next.
#[derive(Debug, PartialEq, Eq, Structural, Clone, Copy)]
pub enum AcceptAction {
    /// Serve the client in a task of its own and accept the next one.
    Serve,
    /// Leave the loop.
    Stop,
}

/// The accept loop serves every accepted client and ends on the first
/// failure to accept or on shutdown.
pub fn on_accept(event: AcceptEvent) -> (r: AcceptAction)
    ensures
        r == AcceptAction::Serve <==> event is Accepted,
{
    match event {
        AcceptEvent::Accepted => AcceptAction::Serve,
        AcceptEvent::Failed => AcceptAction::Stop,
        AcceptEvent::Shutdown => AcceptAction::Stop,
    }
}

} // verus!
