use vstd::prelude::*;
use std::collections::HashMap;
use crate::http::{is_http_request, spec_is_http};
use crate::protocol::{
    encode_response, spec_decode, spec_response, Command, ProtocolError, RequestSpec, VlessRequest,
};
use crate::xtls::{spec_vision_applies, vision_applies};

verus! {

broadcast use vstd::std_specs::hash::group_hash_axioms;

/// First byte of a TLS handshake record.
pub const TLS_HANDSHAKE_BYTE: u8 = 0x16;

/// How a fresh connection is handled, judged by its first bytes.
#[derive(Debug, Clone, Copy, PartialEq, Eq, Structural)]
pub enum ConnectionKind {
    /// The peer sent nothing: close.
    Closed,
    /// A TLS ClientHello: terminate TLS first.
    Tls,
    /// An HTTP request: monitoring endpoints or a WebSocket upgrade.
    Http,
    /// Anything else is a raw request header.
    Vless,
}

pub open spec fn spec_classify(peek: Seq<u8>) -> ConnectionKind {
    if peek.len() == 0 {
        ConnectionKind::Closed
    } else if peek[0] == 0x16 {
        ConnectionKind::Tls
    } else if spec_is_http(peek) {
        ConnectionKind::Http
    } else {
        ConnectionKind::Vless
    }
}

/// Classifies a connection from the bytes peeked at its start, without
/// consuming them.
pub fn classify_connection(peek: &[u8]) -> (r: ConnectionKind)
    ensures
        r == spec_classify(peek@),
{
    if peek.len() == 0 {
        ConnectionKind::Closed
    } else if peek[0] == TLS_HANDSHAKE_BYTE {
        ConnectionKind::Tls
    } else if is_http_request(peek) {
        ConnectionKind::Http
    } else {
        ConnectionKind::Vless
    }
}

/// The user set: UUID (as a big-endian integer) to optional label.
pub struct ServerConfig {
    pub listen: String,
    pub port: u16,
    pub user_emails: HashMap<u128, Option<String>>,
}

impl ServerConfig {
    pub fn new(listen: String, port: u16) -> (r: ServerConfig)
        ensures
            r.listen@ == listen@,
            r.port == port,
            r.user_emails@ == Map::<u128, Option<String>>::empty(),
    {
        ServerConfig { listen, port, user_emails: HashMap::new() }
    }

    pub fn add_user_with_email(&mut self, uuid: u128, email: Option<String>)
        ensures
            final(self).user_emails@ == old(self).user_emails@.insert(uuid, email),
            final(self).listen == old(self).listen,
            final(self).port == old(self).port,
    {
        self.user_emails.insert(uuid, email);
    }

    /// Whether the UUID belongs to a configured user.
    pub fn contains_user(&self, uuid: u128) -> (r: bool)
        ensures
            r == self.user_emails@.contains_key(uuid),
    {
        self.user_emails.contains_key(&uuid)
    }

    /// The label of a user, when the user exists and has one.
    pub fn get_user_email(&self, uuid: u128) -> (r: Option<String>)
        ensures
            match r {
                Some(e) => self.user_emails@.contains_key(uuid) && self.user_emails@[uuid] is Some
                    && e@ == self.user_emails@[uuid]->0@,
                None => !self.user_emails@.contains_key(uuid) || self.user_emails@[uuid] is None,
            },
    {
        match self.user_emails.get(&uuid) {
            Some(Some(e)) => Some(e.clone()),
            _ => None,
        }
    }
}

/// Why a session ended before relaying.
#[derive(Debug, Clone, Copy, PartialEq, Eq, Structural)]
pub enum SessionError {
    /// The header could not be decoded.
    Malformed(ProtocolError),
    /// The UUID is not in the user set.
    Unauthenticated,
    /// Mux is not implemented.
    UnsupportedCommand,
}

/// How the accepted session relays its traffic.
#[derive(Debug, Clone, Copy, PartialEq, Eq, Structural)]
pub enum RelayMode {
    /// Plain bidirectional copy to a TCP target.
    Tcp,
    /// TCP with the Vision sniffing state machine on the upload side.
    Vision,
    /// One datagram per read, to a pinned UDP destination.
    Udp,
}

pub open spec fn spec_relay_mode(tls_terminated: bool, r: RequestSpec) -> RelayMode {
    if r.command == Command::Udp {
        RelayMode::Udp
    } else if spec_vision_applies(tls_terminated, r.xtls_flow, r.command) {
        RelayMode::Vision
    } else {
        RelayMode::Tcp
    }
}

/// What the session owes the wire, in order.
pub ghost enum WireEvent {
    /// The response frame sent to the client.
    Response(Seq<u8>),
    /// Bytes relayed to the target.
    Upload(Seq<u8>),
    /// Bytes relayed to the client.
    Download(Seq<u8>),
}

#[derive(Debug, Clone, Copy, PartialEq, Eq, Structural)]
pub enum SessionPhase {
    AwaitingHeader,
    Relaying,
    Closed,
}

/// The outcome of an accepted header: the frame to send, the request, the
/// first upload chunk and the relay to run.
pub struct Accepted {
    pub response: Vec<u8>,
    pub request: VlessRequest,
    pub remaining: Vec<u8>,
    pub mode: RelayMode,
}

/// The per-connection decisions between the header and the relay. It
/// records what was emitted, so that the order on the wire can be stated.
pub struct Session {
    pub phase: SessionPhase,
    pub version: u8,
    pub trace: Ghost<Seq<WireEvent>>,
}

/// The relay events of a trace all come after exactly one response frame.
pub open spec fn response_first(trace: Seq<WireEvent>, version: u8) -> bool {
    &&& trace.len() >= 1
    &&& trace[0] == WireEvent::Response(spec_response(version))
    &&& forall|i: int| 1 <= i < trace.len() ==> !(#[trigger] trace[i] is Response)
}

impl Session {
    pub open spec fn wf(&self) -> bool {
        match self.phase {
            SessionPhase::AwaitingHeader => self.trace@.len() == 0,
            SessionPhase::Relaying => response_first(self.trace@, self.version),
            SessionPhase::Closed => self.trace@.len() == 0 || response_first(self.trace@, self.version),
        }
    }

    pub fn new() -> (r: Session)
        ensures
            r.wf(),
            r.phase == SessionPhase::AwaitingHeader,
    {
        Session { phase: SessionPhase::AwaitingHeader, version: 0, trace: Ghost(Seq::empty()) }
    }

    /// Decodes and authenticates the header. On success the response frame
    /// `[version, 0]` is the one and only thing emitted so far; on failure
    /// nothing is emitted and the session is closed.
    pub fn accept_header(&mut self, buf: &[u8], users: &ServerConfig, tls_terminated: bool) -> (r: Result<Accepted, SessionError>)
        requires
            old(self).wf(),
            old(self).phase == SessionPhase::AwaitingHeader,
        ensures
            final(self).wf(),
            match spec_decode(buf@) {
                Err(e) => r == Err::<Accepted, SessionError>(SessionError::Malformed(e)),
                Ok((req, rest)) => if !users.user_emails@.contains_key(req.uuid) {
                    r == Err::<Accepted, SessionError>(SessionError::Unauthenticated)
                } else if req.command == Command::Mux {
                    r == Err::<Accepted, SessionError>(SessionError::UnsupportedCommand)
                } else {
                    &&& r is Ok
                    &&& r->Ok_0.request@ == req
                    &&& r->Ok_0.remaining@ == rest
                    &&& r->Ok_0.response@ == spec_response(req.version)
                    &&& r->Ok_0.mode == spec_relay_mode(tls_terminated, req)
                    &&& final(self).phase == SessionPhase::Relaying
                    &&& final(self).version == req.version
                    &&& final(self).trace@ == Seq::empty().push(WireEvent::Response(spec_response(req.version)))
                },
            },
            r is Err ==> final(self).phase == SessionPhase::Closed && final(self).trace@.len() == 0,
    {
        match VlessRequest::decode(buf) {
            Err(e) => {
                self.phase = SessionPhase::Closed;
                Err(SessionError::Malformed(e))
            },
            Ok((request, remaining)) => {
                if !users.contains_user(request.uuid) {
                    self.phase = SessionPhase::Closed;
                    return Err(SessionError::Unauthenticated);
                }
                let mode = match request.command {
                    Command::Mux => {
                        self.phase = SessionPhase::Closed;
                        return Err(SessionError::UnsupportedCommand);
                    },
                    Command::Udp => RelayMode::Udp,
                    Command::Tcp => if vision_applies(tls_terminated, request.xtls_flow, request.command) {
                        RelayMode::Vision
                    } else {
                        RelayMode::Tcp
                    },
                };
                let response = encode_response(request.version);
                self.phase = SessionPhase::Relaying;
                self.version = request.version;
                let ghost first = WireEvent::Response(response@);
                self.trace = Ghost(Seq::empty().push(first));
                Ok(Accepted { response, request, remaining, mode })
            },
        }
    }

    /// Records bytes relayed to the target.
    pub fn record_upload(&mut self, data: &[u8])
        requires
            old(self).wf(),
            old(self).phase == SessionPhase::Relaying,
        ensures
            final(self).wf(),
            final(self).phase == SessionPhase::Relaying,
            final(self).version == old(self).version,
            final(self).trace@ == old(self).trace@.push(WireEvent::Upload(data@)),
    {
        self.trace = Ghost(self.trace@.push(WireEvent::Upload(data@)));
        assert(self.trace@[self.trace@.len() - 1] == WireEvent::Upload(data@));
    }

    /// Records bytes relayed to the client.
    pub fn record_download(&mut self, data: &[u8])
        requires
            old(self).wf(),
            old(self).phase == SessionPhase::Relaying,
        ensures
            final(self).wf(),
            final(self).phase == SessionPhase::Relaying,
            final(self).version == old(self).version,
            final(self).trace@ == old(self).trace@.push(WireEvent::Download(data@)),
    {
        self.trace = Ghost(self.trace@.push(WireEvent::Download(data@)));
        assert(self.trace@[self.trace@.len() - 1] == WireEvent::Download(data@));
    }

    /// Ends the session; whatever was emitted stays as it was.
    pub fn close(&mut self)
        requires
            old(self).wf(),
        ensures
            final(self).wf(),
            final(self).phase == SessionPhase::Closed,
            final(self).trace@ == old(self).trace@,
    {
        self.phase = SessionPhase::Closed;
    }
}

/// Whatever a session has emitted, in any phase: if anything was relayed,
/// the first event is the response frame `[version, 0]`, and no other
/// response frame follows.
pub proof fn lemma_single_response_before_relay(s: Session)
    requires
        s.wf(),
    ensures
        (exists|i: int| 0 <= i < s.trace@.len() && !(#[trigger] s.trace@[i] is Response))
            ==> s.trace@[0] == WireEvent::Response(spec_response(s.version)),
        forall|i: int, j: int|
            0 <= i < s.trace@.len() && 0 <= j < s.trace@.len() && #[trigger] s.trace@[i] is Response
                && #[trigger] s.trace@[j] is Response ==> i == j,
{
}

// ---------------------------------------------------------------------------
// Relay direction

/// Per-direction byte accounting: a running total and a batch that is
/// flushed to the statistics sink when it reaches the batch size or when
/// the direction ends.
pub struct ByteCounter {
    pub total: u64,
    pub batch: u64,
    pub batch_size: u64,
    /// Sum of all flushes so far.
    pub flushed: Ghost<nat>,
}

impl ByteCounter {
    pub open spec fn wf(&self) -> bool {
        self.flushed@ + self.batch == self.total
    }

    pub fn new(batch_size: u64) -> (r: ByteCounter)
        ensures
            r.wf(),
            r.total == 0 && r.batch == 0 && r.batch_size == batch_size,
    {
        ByteCounter { total: 0, batch: 0, batch_size, flushed: Ghost(0) }
    }

    /// Counts `n` relayed bytes; returns how many to flush now (0 for none).
    pub fn on_bytes(&mut self, n: u64) -> (flush: u64)
        requires
            old(self).wf(),
            old(self).total + n <= u64::MAX,
        ensures
            final(self).wf(),
            final(self).total == old(self).total + n,
            final(self).batch_size == old(self).batch_size,
            old(self).batch + n >= old(self).batch_size ==> flush == old(self).batch + n && final(self).batch == 0,
            old(self).batch + n < old(self).batch_size ==> flush == 0 && final(self).batch == old(self).batch + n,
            final(self).flushed@ == old(self).flushed@ + flush,
    {
        self.total = self.total + n;
        self.batch = self.batch + n;
        if self.batch >= self.batch_size {
            let f = self.batch;
            self.batch = 0;
            self.flushed = Ghost((self.flushed@ + f) as nat);
            f
        } else {
            0
        }
    }

    /// Ends the direction: the rest of the batch is flushed, after which
    /// every counted byte has been reported.
    pub fn finish(&mut self) -> (flush: u64)
        requires
            old(self).wf(),
        ensures
            final(self).wf(),
            flush == old(self).batch,
            final(self).batch == 0,
            final(self).total == old(self).total,
            final(self).flushed@ == final(self).total,
    {
        let f = self.batch;
        self.batch = 0;
        self.flushed = Ghost((self.flushed@ + f) as nat);
        f
    }
}

/// The client-to-target direction of a TCP relay: the leftover header bytes
/// go out first, then each client read, unchanged and in order.
pub struct UploadRelay {
    pub started: bool,
    pub initial: Ghost<Seq<u8>>,
    /// Bytes read from the client after the header.
    pub received: Ghost<Seq<u8>>,
    /// Bytes written to the target.
    pub delivered: Ghost<Seq<u8>>,
}

impl UploadRelay {
    pub open spec fn wf(&self) -> bool {
        if self.started {
            self.delivered@ == self.initial@ + self.received@
        } else {
            self.delivered@.len() == 0 && self.received@.len() == 0
        }
    }

    pub fn new() -> (r: UploadRelay)
        ensures
            r.wf(),
            !r.started,
    {
        UploadRelay {
            started: false,
            initial: Ghost(Seq::empty()),
            received: Ghost(Seq::empty()),
            delivered: Ghost(Seq::empty()),
        }
    }

    /// The first write: the bytes that followed the request header.
    pub fn start(&mut self, remaining: &[u8]) -> (out: Vec<u8>)
        requires
            old(self).wf(),
            !old(self).started,
        ensures
            final(self).wf(),
            final(self).started,
            out@ == remaining@,
            final(self).initial@ == remaining@,
            final(self).delivered@ == remaining@,
            final(self).received@.len() == 0,
    {
        let out = crate::protocol::copy_range(remaining, 0, remaining.len());
        assert(remaining@.subrange(0, remaining@.len() as int) =~= remaining@);
        self.started = true;
        self.initial = Ghost(remaining@);
        self.delivered = Ghost(remaining@);
        assert(self.delivered@ =~= self.initial@ + self.received@);
        out
    }

    /// A client read: written to the target as it is.
    pub fn on_client_read(&mut self, chunk: &[u8]) -> (out: Vec<u8>)
        requires
            old(self).wf(),
            old(self).started,
        ensures
            final(self).wf(),
            final(self).started,
            out@ == chunk@,
            final(self).initial == old(self).initial,
            final(self).received@ == old(self).received@ + chunk@,
            final(self).delivered@ == old(self).delivered@ + chunk@,
    {
        let out = crate::protocol::copy_range(chunk, 0, chunk.len());
        assert(chunk@.subrange(0, chunk@.len() as int) =~= chunk@);
        self.received = Ghost(self.received@ + chunk@);
        self.delivered = Ghost(self.delivered@ + chunk@);
        assert(self.delivered@ =~= self.initial@ + self.received@);
        out
    }
}

/// Concatenation of a sequence of reads.
pub open spec fn concat_chunks(chunks: Seq<Seq<u8>>) -> Seq<u8>
    decreases chunks.len(),
{
    if chunks.len() == 0 {
        Seq::empty()
    } else {
        concat_chunks(chunks.drop_last()) + chunks.last()
    }
}

/// Feeding reads one after another into a started upload relay delivers
/// exactly the leftover header bytes followed by all of the reads, in order.
pub proof fn lemma_upload_delivers_in_order(u: UploadRelay, chunks: Seq<Seq<u8>>)
    requires
        u.wf(),
        u.started,
        u.received@ == concat_chunks(chunks),
    ensures
        u.delivered@ == u.initial@ + concat_chunks(chunks),
{
}

// ---------------------------------------------------------------------------
// UDP over TCP

/// A UDP endpoint: an IPv4 address (in the low 32 bits) or an IPv6 address,
/// and a port.
#[derive(Debug, Clone, Copy, PartialEq, Eq, Structural)]
pub struct Endpoint {
    pub is_ipv6: bool,
    pub ip: u128,
    pub port: u16,
}

/// The datagram to send for one read from the client stream: the read
/// itself, or nothing when the read is empty (the stream ended).
pub fn udp_datagram_for_read(chunk: &[u8]) -> (r: Option<Vec<u8>>)
    ensures
        chunk@.len() == 0 <==> r is None,
        r is Some ==> r->0@ == chunk@,
{
    if chunk.len() == 0 {
        None
    } else {
        let d = crate::protocol::copy_range(chunk, 0, chunk.len());
        assert(chunk@.subrange(0, chunk@.len() as int) =~= chunk@);
        Some(d)
    }
}

/// Whether a received datagram may reach the client: only when it comes
/// from the pinned destination.
pub fn udp_accept_source(source: Endpoint, pinned: Endpoint) -> (r: bool)
    ensures
        r == (source == pinned),
{
    source.is_ipv6 == pinned.is_ipv6 && source.ip == pinned.ip && source.port == pinned.port
}

/// What a received datagram puts on the client stream: its bytes as one
/// contiguous block when it comes from the pinned destination, else nothing.
pub fn udp_download_block(source: Endpoint, pinned: Endpoint, data: &[u8]) -> (r: Option<Vec<u8>>)
    ensures
        r is Some <==> source == pinned,
        r is Some ==> r->0@ == data@,
{
    if udp_accept_source(source, pinned) {
        let d = crate::protocol::copy_range(data, 0, data.len());
        assert(data@.subrange(0, data@.len() as int) =~= data@);
        Some(d)
    } else {
        None
    }
}

// ---------------------------------------------------------------------------
// Connection governor

/// A cap on concurrent sessions (0 = unlimited) and the count of accepts
/// refused because the cap was reached.
pub struct ConnectionGovernor {
    pub capacity: usize,
    pub active: usize,
    pub rejected: u64,
}

impl ConnectionGovernor {
    pub open spec fn wf(&self) -> bool {
        self.capacity == 0 || self.active <= self.capacity
    }

    pub fn new(capacity: usize) -> (r: ConnectionGovernor)
        ensures
            r.wf(),
            r.capacity == capacity,
            r.active == 0,
            r.rejected == 0,
    {
        ConnectionGovernor { capacity, active: 0, rejected: 0 }
    }

    /// Admits a new session unless the cap is reached; a refusal is counted.
    pub fn try_acquire(&mut self) -> (admitted: bool)
        requires
            old(self).wf(),
            old(self).capacity == 0 ==> old(self).active < usize::MAX,
        ensures
            final(self).wf(),
            final(self).capacity == old(self).capacity,
            admitted == (old(self).capacity == 0 || old(self).active < old(self).capacity),
            admitted ==> final(self).active == old(self).active + 1 && final(self).rejected == old(self).rejected,
            !admitted ==> final(self).active == old(self).active && final(self).rejected == (if old(self).rejected
                == u64::MAX {
                u64::MAX
            } else {
                (old(self).rejected + 1) as u64
            }),
    {
        if self.capacity == 0 || self.active < self.capacity {
            self.active = self.active + 1;
            true
        } else {
            self.rejected = self.rejected.saturating_add(1);
            false
        }
    }

    /// Ends an admitted session.
    pub fn release(&mut self)
        requires
            old(self).wf(),
            old(self).active > 0,
        ensures
            final(self).wf(),
            final(self).capacity == old(self).capacity,
            final(self).active == old(self).active - 1,
            final(self).rejected == old(self).rejected,
    {
        self.active = self.active - 1;
    }
}

} // verus!
