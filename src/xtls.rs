use vstd::prelude::*;
use crate::protocol::{Command, XtlsFlow};

verus! {

/// Largest record body that a TLS record header may announce.
pub const MAX_TLS_RECORD_LEN: usize = 16384;

/// The content types that open a TLS record.
#[derive(Debug, Clone, Copy, PartialEq, Eq, Structural)]
pub enum TlsContentType {
    ChangeCipherSpec,
    Alert,
    Handshake,
    ApplicationData,
}

/// Whether a byte is one of the four TLS record content types (0x14..=0x17).
pub open spec fn is_tls_content_type(b: u8) -> bool {
    20 <= b && b <= 23
}

pub open spec fn content_type_of(b: u8) -> Option<TlsContentType> {
    if b == 20 {
        Some(TlsContentType::ChangeCipherSpec)
    } else if b == 21 {
        Some(TlsContentType::Alert)
    } else if b == 22 {
        Some(TlsContentType::Handshake)
    } else if b == 23 {
        Some(TlsContentType::ApplicationData)
    } else {
        None
    }
}

/// The body length announced by a record header (bytes 3 and 4, big-endian).
pub open spec fn announced_len(b: Seq<u8>) -> nat {
    b[3] as nat * 256 + b[4] as nat
}

/// A chunk that starts with one complete TLS record: a record content type,
/// version 3.1 to 3.4, a length of at most 16384, and at least that many
/// body bytes after the 5-byte header.
pub open spec fn looks_like_tls_record(b: Seq<u8>) -> bool {
    &&& b.len() >= 5
    &&& is_tls_content_type(b[0])
    &&& b[1] == 3
    &&& 1 <= b[2] <= 4
    &&& announced_len(b) <= 16384
    &&& b.len() >= 5 + announced_len(b)
}

impl TlsContentType {
    pub fn from_byte(b: u8) -> (r: Option<TlsContentType>)
        ensures
            r == content_type_of(b),
    {
        if b == 20 {
            Some(TlsContentType::ChangeCipherSpec)
        } else if b == 21 {
            Some(TlsContentType::Alert)
        } else if b == 22 {
            Some(TlsContentType::Handshake)
        } else if b == 23 {
            Some(TlsContentType::ApplicationData)
        } else {
            None
        }
    }

    pub fn is_tls_record(b: u8) -> (r: bool)
        ensures
            r == is_tls_content_type(b),
            r == (content_type_of(b) is Some),
    {
        20 <= b && b <= 23
    }
}

/// Inspects the first client chunk after the handshake: whether it begins
/// with a complete TLS record.
pub fn detect_tls_content(data: &[u8]) -> (r: bool)
    ensures
        r == looks_like_tls_record(data@),
{
    if data.len() == 0 {
        return false;
    }
    if !TlsContentType::is_tls_record(data[0]) {
        return false;
    }
    if data.len() < 5 {
        return false;
    }
    if data[1] != 3 {
        return false;
    }
    if data[2] < 1 || data[2] > 4 {
        return false;
    }
    let length = (data[3] as usize) * 256 + data[4] as usize;
    if length > MAX_TLS_RECORD_LEN {
        return false;
    }
    data.len() - 5 >= length
}

/// Extending a chunk that was recognised as inner TLS keeps it recognised:
/// the verdict depends only on a prefix that the extension preserves.
pub proof fn lemma_detection_stable_under_extension(b: Seq<u8>, longer: Seq<u8>)
    requires
        looks_like_tls_record(b),
        longer.len() >= b.len(),
        longer.subrange(0, b.len() as int) == b,
    ensures
        looks_like_tls_record(longer),
{
    assert forall|k: int| 0 <= k < b.len() implies longer[k] == b[k] by {
        assert(longer.subrange(0, b.len() as int)[k] == longer[k]);
    }
}

/// Phases of a Vision-controlled upload direction.
#[derive(Debug, Clone, Copy, PartialEq, Eq, Structural)]
pub enum VisionState {
    /// Nothing forwarded yet; the leftover header bytes go out first.
    EarlyData,
    /// Waiting for the first client chunk, which is inspected.
    Detecting,
    /// Inner TLS seen: raw pass-through from now on.
    Spliced,
    /// No inner TLS: byte-identical forwarding on the ordinary path.
    Normal,
}

/// Whether the Vision path applies to a session: the server terminated the
/// outer TLS, the client asked for a Vision flow, and the command is TCP.
pub open spec fn spec_vision_applies(tls_terminated: bool, flow: XtlsFlow, command: Command) -> bool {
    tls_terminated && flow != XtlsFlow::Plain && command == Command::Tcp
}

pub fn vision_applies(tls_terminated: bool, flow: XtlsFlow, command: Command) -> (r: bool)
    ensures
        r == spec_vision_applies(tls_terminated, flow, command),
{
    tls_terminated && (match flow {
        XtlsFlow::Plain => false,
        _ => true,
    }) && (match command {
        Command::Tcp => true,
        _ => false,
    })
}

/// The upload side of a Vision session. It forwards every byte it is given,
/// in order, and classifies the first client chunk exactly once.
pub struct VisionProcessor {
    pub state: VisionState,
    /// Bytes handed to the target so far.
    pub forwarded: Ghost<Seq<u8>>,
}

impl VisionProcessor {
    pub fn new() -> (r: VisionProcessor)
        ensures
            r.state == VisionState::EarlyData,
            r.forwarded@ == Seq::<u8>::empty(),
    {
        VisionProcessor { state: VisionState::EarlyData, forwarded: Ghost(Seq::empty()) }
    }

    /// Forwards the bytes that followed the request header, unchanged.
    pub fn forward_initial(&mut self, initial: &[u8]) -> (out: Vec<u8>)
        requires
            old(self).state == VisionState::EarlyData,
        ensures
            out@ == initial@,
            final(self).state == VisionState::Detecting,
            final(self).forwarded@ == old(self).forwarded@ + initial@,
    {
        let out = crate::protocol::copy_range(initial, 0, initial.len());
        assert(initial@.subrange(0, initial@.len() as int) =~= initial@);
        self.state = VisionState::Detecting;
        self.forwarded = Ghost(self.forwarded@ + initial@);
        out
    }

    /// Forwards one client chunk unchanged. The first one decides the mode:
    /// `Spliced` when it starts with a TLS record, `Normal` otherwise; later
    /// chunks leave the mode as it is.
    pub fn forward_client_chunk(&mut self, chunk: &[u8]) -> (out: Vec<u8>)
        requires
            old(self).state != VisionState::EarlyData,
        ensures
            out@ == chunk@,
            final(self).forwarded@ == old(self).forwarded@ + chunk@,
            old(self).state == VisionState::Detecting ==> final(self).state == (if looks_like_tls_record(
                chunk@,
            ) {
                VisionState::Spliced
            } else {
                VisionState::Normal
            }),
            old(self).state != VisionState::Detecting ==> final(self).state == old(self).state,
    {
        if self.state == VisionState::Detecting {
            if detect_tls_content(chunk) {
                self.state = VisionState::Spliced;
            } else {
                self.state = VisionState::Normal;
            }
        }
        let out = crate::protocol::copy_range(chunk, 0, chunk.len());
        assert(chunk@.subrange(0, chunk@.len() as int) =~= chunk@);
        self.forwarded = Ghost(self.forwarded@ + chunk@);
        out
    }
}

/// Counters of the Vision path.
#[derive(Debug, Clone, Copy, PartialEq, Eq, Structural)]
pub struct VisionStats {
    /// First client chunks inspected.
    pub detections: u64,
    /// Sessions switched to pass-through.
    pub splice_switches: u64,
    /// Bytes relayed after a switch.
    pub splice_bytes: u64,
    /// Bytes relayed on the ordinary path.
    pub encrypted_bytes: u64,
    /// Vision sessions now running.
    pub active_connections: usize,
}

impl Default for VisionStats {
    fn default() -> (r: VisionStats)
        ensures
            r == (VisionStats {
                detections: 0,
                splice_switches: 0,
                splice_bytes: 0,
                encrypted_bytes: 0,
                active_connections: 0,
            }),
    {
        VisionStats { detections: 0, splice_switches: 0, splice_bytes: 0, encrypted_bytes: 0, active_connections: 0 }
    }
}

impl VisionStats {
    /// Counts one inspection and, when it found inner TLS, one switch.
    pub fn record_detection(&mut self, spliced: bool)
        ensures
            final(self).detections == (if old(self).detections == u64::MAX { u64::MAX } else { (old(self).detections + 1) as u64 }),
            final(self).splice_switches == (if !spliced || old(self).splice_switches == u64::MAX {
                old(self).splice_switches
            } else {
                (old(self).splice_switches + 1) as u64
            }),
            final(self).splice_bytes == old(self).splice_bytes,
            final(self).encrypted_bytes == old(self).encrypted_bytes,
            final(self).active_connections == old(self).active_connections,
    {
        self.detections = self.detections.saturating_add(1);
        if spliced {
            self.splice_switches = self.splice_switches.saturating_add(1);
        }
    }
}

} // verus!
