use vstd::prelude::*;
use vstd::arithmetic::power::{pow, lemma_pow_increases};
use vstd::utf8::{valid_utf8, decode_utf8};
use crate::text::string_from_utf8;

verus! {

/// Protocol version sent by early clients.
pub const VLESS_VERSION_BETA: u8 = 0;

/// Protocol version of the released wire format.
pub const VLESS_VERSION_RELEASE: u8 = 1;

/// Fixed prefix of every request: version, 16 UUID bytes, addons length.
pub const MIN_HEADER_LEN: usize = 18;

/// What the client asks the server to do with the target.
#[derive(Debug, Clone, Copy, PartialEq, Eq, Structural)]
pub enum Command {
    Tcp,
    Udp,
    Mux,
}

/// The tag that selects an address encoding.
#[derive(Debug, Clone, Copy, PartialEq, Eq, Structural)]
pub enum AddressType {
    Ipv4,
    Domain,
    Ipv6,
}

/// Flow-control profile requested in the addons.
#[derive(Debug, Clone, Copy, PartialEq, Eq, Structural)]
pub enum XtlsFlow {
    Plain,
    XtlsRprxVision,
    XtlsRprxVisionUdp443,
}

/// Why a request header was refused.
#[derive(Debug, Clone, Copy, PartialEq, Eq, Structural)]
pub enum ProtocolError {
    /// The buffer ends before the header does.
    TooShort,
    /// The version byte is neither 0 nor 1.
    UnsupportedVersion(u8),
    /// The command byte is not 1, 2 or 3.
    InvalidCommand(u8),
    /// The address tag is not 1, 2 or 3.
    InvalidAddressType(u8),
    /// A domain of length zero.
    EmptyDomain,
    /// Domain bytes that are not UTF-8.
    InvalidDomain,
    /// A domain names no socket address until it is resolved.
    DomainNeedsResolution,
}

/// A decoded target address.
#[derive(Debug, Clone, PartialEq, Eq)]
pub enum Address {
    Ipv4([u8; 4]),
    Domain(String),
    Ipv6([u8; 16]),
}

/// Mathematical form of an [`Address`].
pub ghost enum AddressSpec {
    Ipv4(Seq<u8>),
    Domain(Seq<char>),
    Ipv6(Seq<u8>),
}

impl View for Address {
    type V = AddressSpec;

    open spec fn view(&self) -> AddressSpec {
        match self {
            Address::Ipv4(o) => AddressSpec::Ipv4(o@),
            Address::Domain(d) => AddressSpec::Domain(d@),
            Address::Ipv6(o) => AddressSpec::Ipv6(o@),
        }
    }
}

/// Mathematical form of a decoded request header.
pub ghost struct RequestSpec {
    pub version: u8,
    pub uuid: u128,
    pub addons: Seq<u8>,
    pub xtls_flow: XtlsFlow,
    pub command: Command,
    pub port: u16,
    pub address: AddressSpec,
}

/// A decoded request header.
#[derive(Debug, Clone)]
pub struct VlessRequest {
    pub version: u8,
    /// The UUID as a big-endian 128-bit integer.
    pub uuid: u128,
    pub addons_length: u8,
    pub addons: Vec<u8>,
    pub xtls_flow: XtlsFlow,
    pub command: Command,
    pub port: u16,
    pub address: Address,
}

impl View for VlessRequest {
    type V = RequestSpec;

    open spec fn view(&self) -> RequestSpec {
        RequestSpec {
            version: self.version,
            uuid: self.uuid,
            addons: self.addons@,
            xtls_flow: self.xtls_flow,
            command: self.command,
            port: self.port,
            address: self.address@,
        }
    }
}

impl VlessRequest {
    /// The header fields agree with each other: the stored addons length is
    /// the length of the addons.
    pub open spec fn well_formed(&self) -> bool {
        self.addons@.len() == self.addons_length as nat
    }
}

/// The response frame: version echo and an (empty) addons section.
#[derive(Debug, Clone)]
pub struct VlessResponse {
    pub version: u8,
    pub addons_length: u8,
    pub addons: Vec<u8>,
}

// ---------------------------------------------------------------------------
// Specification of the wire format

/// Big-endian unsigned value of a byte string.
pub open spec fn be_uint(s: Seq<u8>) -> nat
    decreases s.len(),
{
    if s.len() == 0 {
        0
    } else {
        be_uint(s.drop_last()) * 256 + s.last() as nat
    }
}

/// The flow tag `xtls-rprx-vision`.
pub open spec fn vision_tag() -> Seq<u8> {
    seq![
        120u8, 116u8, 108u8, 115u8, 45u8, 114u8, 112u8, 114u8, 120u8, 45u8,
        118u8, 105u8, 115u8, 105u8, 111u8, 110u8,
    ]
}

/// The flow tag `xtls-rprx-vision-udp443`.
pub open spec fn vision_udp443_tag() -> Seq<u8> {
    vision_tag() + seq![45u8, 117u8, 100u8, 112u8, 52u8, 52u8, 51u8]
}

/// `needle` occurs in `hay` starting at index `i`.
pub open spec fn occurs_at(hay: Seq<u8>, needle: Seq<u8>, i: int) -> bool {
    0 <= i && i + needle.len() <= hay.len() && hay.subrange(i, i + needle.len()) == needle
}

/// `needle` occurs somewhere in `hay`.
pub open spec fn contains_bytes(hay: Seq<u8>, needle: Seq<u8>) -> bool {
    exists|i: int| occurs_at(hay, needle, i)
}

/// The flow selected by an addons payload. The longer tag wins, since it
/// contains the shorter one.
pub open spec fn flow_of(addons: Seq<u8>) -> XtlsFlow {
    if contains_bytes(addons, vision_udp443_tag()) {
        XtlsFlow::XtlsRprxVisionUdp443
    } else if contains_bytes(addons, vision_tag()) {
        XtlsFlow::XtlsRprxVision
    } else {
        XtlsFlow::Plain
    }
}

pub open spec fn command_of(b: u8) -> Option<Command> {
    if b == 1 {
        Some(Command::Tcp)
    } else if b == 2 {
        Some(Command::Udp)
    } else if b == 3 {
        Some(Command::Mux)
    } else {
        None
    }
}

pub open spec fn address_type_of(b: u8) -> Option<AddressType> {
    if b == 1 {
        Some(AddressType::Ipv4)
    } else if b == 2 {
        Some(AddressType::Domain)
    } else if b == 3 {
        Some(AddressType::Ipv6)
    } else {
        None
    }
}

/// Decoding of an address that starts at index `p` of `b` (with its tag);
/// the result carries the index just past it.
pub open spec fn spec_decode_address(b: Seq<u8>, p: int) -> Result<(AddressSpec, int), ProtocolError> {
    if p >= b.len() {
        Err(ProtocolError::TooShort)
    } else {
        let t = b[p];
        if t == 1 {
            if p + 5 > b.len() {
                Err(ProtocolError::TooShort)
            } else {
                Ok((AddressSpec::Ipv4(b.subrange(p + 1, p + 5)), p + 5))
            }
        } else if t == 2 {
            if p + 2 > b.len() {
                Err(ProtocolError::TooShort)
            } else {
                let dl = b[p + 1] as int;
                if dl == 0 {
                    Err(ProtocolError::EmptyDomain)
                } else if p + 2 + dl > b.len() {
                    Err(ProtocolError::TooShort)
                } else if !valid_utf8(b.subrange(p + 2, p + 2 + dl)) {
                    Err(ProtocolError::InvalidDomain)
                } else {
                    Ok((AddressSpec::Domain(decode_utf8(b.subrange(p + 2, p + 2 + dl))), p + 2 + dl))
                }
            }
        } else if t == 3 {
            if p + 17 > b.len() {
                Err(ProtocolError::TooShort)
            } else {
                Ok((AddressSpec::Ipv6(b.subrange(p + 1, p + 17)), p + 17))
            }
        } else {
            Err(ProtocolError::InvalidAddressType(t))
        }
    }
}

/// Decoding of a whole request header: the request and the bytes after it.
pub open spec fn spec_decode(b: Seq<u8>) -> Result<(RequestSpec, Seq<u8>), ProtocolError> {
    if b.len() < 18 {
        Err(ProtocolError::TooShort)
    } else if b[0] > 1 {
        Err(ProtocolError::UnsupportedVersion(b[0]))
    } else {
        let l = b[17] as int;
        if b.len() < 18 + l + 4 {
            Err(ProtocolError::TooShort)
        } else if command_of(b[18 + l]) is None {
            Err(ProtocolError::InvalidCommand(b[18 + l]))
        } else {
            match spec_decode_address(b, 21 + l) {
                Err(e) => Err(e),
                Ok((addr, end)) => {
                    let addons = b.subrange(18, 18 + l);
                    Ok((
                        RequestSpec {
                            version: b[0],
                            uuid: be_uint(b.subrange(1, 17)) as u128,
                            addons,
                            xtls_flow: flow_of(addons),
                            command: command_of(b[18 + l])->0,
                            port: (b[19 + l] as nat * 256 + b[20 + l] as nat) as u16,
                            address: addr,
                        },
                        b.subrange(end, b.len() as int),
                    ))
                },
            }
        }
    }
}

/// The response frame for a request of the given version.
pub open spec fn spec_response(version: u8) -> Seq<u8> {
    seq![version, 0u8]
}

// ---------------------------------------------------------------------------
// Lemmas on the big-endian value

pub proof fn lemma_be_uint_bound(s: Seq<u8>)
    ensures
        be_uint(s) < pow(256, s.len() as nat),
    decreases s.len(),
{
    reveal(pow);
    if s.len() > 0 {
        lemma_be_uint_bound(s.drop_last());
        let p = pow(256, (s.len() - 1) as nat);
        assert(be_uint(s.drop_last()) * 256 + 255 < p * 256) by (nonlinear_arith)
            requires
                be_uint(s.drop_last()) < p,
        ;
    }
}

proof fn lemma_pow256_16()
    ensures
        pow(256, 16) == 0x1_0000_0000_0000_0000_0000_0000_0000_0000int,
{
    reveal_with_fuel(pow, 17);
}

// ---------------------------------------------------------------------------
// Encoding of a request, and the round trip through the decoder

/// The `n` big-endian bytes of `v` (its low `8n` bits).
pub open spec fn be_bytes(v: nat, n: nat) -> Seq<u8>
    decreases n,
{
    if n == 0 {
        Seq::empty()
    } else {
        be_bytes(v / 256, (n - 1) as nat).push((v % 256) as u8)
    }
}

pub open spec fn command_byte(c: Command) -> u8 {
    match c {
        Command::Tcp => 1,
        Command::Udp => 2,
        Command::Mux => 3,
    }
}

/// Wire form of an address, tag included.
pub open spec fn spec_encode_address(a: AddressSpec) -> Seq<u8> {
    match a {
        AddressSpec::Ipv4(o) => seq![1u8] + o,
        AddressSpec::Domain(d) => seq![2u8, vstd::utf8::encode_utf8(d).len() as u8]
            + vstd::utf8::encode_utf8(d),
        AddressSpec::Ipv6(o) => seq![3u8] + o,
    }
}

/// Wire form of a request header, as a client writes it.
pub open spec fn spec_encode(r: RequestSpec) -> Seq<u8> {
    seq![r.version] + be_bytes(r.uuid as nat, 16) + seq![r.addons.len() as u8] + r.addons
        + seq![command_byte(r.command), (r.port / 256) as u8, (r.port % 256) as u8]
        + spec_encode_address(r.address)
}

/// The requests that a client can express on the wire: a known version,
/// addons that fit their length byte and carry the flow they name, and an
/// address of the right size (a domain of 1 to 255 bytes).
pub open spec fn encodable(r: RequestSpec) -> bool {
    &&& r.version <= 1
    &&& r.addons.len() <= 255
    &&& r.xtls_flow == flow_of(r.addons)
    &&& match r.address {
        AddressSpec::Ipv4(o) => o.len() == 4,
        AddressSpec::Domain(d) => 1 <= vstd::utf8::encode_utf8(d).len() <= 255,
        AddressSpec::Ipv6(o) => o.len() == 16,
    }
}

pub proof fn lemma_be_bytes_len(v: nat, n: nat)
    ensures
        be_bytes(v, n).len() == n,
    decreases n,
{
    if n > 0 {
        lemma_be_bytes_len(v / 256, (n - 1) as nat);
    }
}

pub proof fn lemma_be_uint_be_bytes(v: nat, n: nat)
    requires
        v < pow(256, n),
    ensures
        be_uint(be_bytes(v, n)) == v,
    decreases n,
{
    reveal(pow);
    if n > 0 {
        let p = pow(256, (n - 1) as nat);
        assert(v / 256 < p) by (nonlinear_arith)
            requires
                v < 256 * p,
        ;
        lemma_be_uint_be_bytes(v / 256, (n - 1) as nat);
        lemma_be_bytes_len(v / 256, (n - 1) as nat);
        assert(be_bytes(v, n).drop_last() =~= be_bytes(v / 256, (n - 1) as nat));
        assert((v / 256) * 256 + v % 256 == v) by (nonlinear_arith);
    }
}

/// Decoding a well-formed encoded header gives back the request, and the
/// bytes that follow the header come out unchanged as the first payload.
pub proof fn lemma_decode_encode(r: RequestSpec, rest: Seq<u8>)
    requires
        encodable(r),
    ensures
        spec_decode(spec_encode(r) + rest) == Ok::<(RequestSpec, Seq<u8>), ProtocolError>((r, rest)),
{
    let l = r.addons.len() as int;
    let uuid_bytes = be_bytes(r.uuid as nat, 16);
    lemma_be_bytes_len(r.uuid as nat, 16);
    lemma_pow256_16();
    lemma_be_uint_be_bytes(r.uuid as nat, 16);
    let addr = spec_encode_address(r.address);
    let b = spec_encode(r) + rest;
    let hdr_end = 21 + l;
    assert(b.subrange(1, 17) =~= uuid_bytes);
    assert(b[0] == r.version);
    assert(b[17] == l as u8);
    assert(b.subrange(18, 18 + l) =~= r.addons);
    assert(b[18 + l] == command_byte(r.command));
    assert(b[19 + l] == (r.port / 256) as u8);
    assert(b[20 + l] == (r.port % 256) as u8);
    assert(b.subrange(hdr_end, b.len() as int) =~= addr + rest);
    let tail = addr + rest;
    assert forall|k: int| 0 <= k < tail.len() implies b[hdr_end + k] == tail[k] by {
        assert(b.subrange(hdr_end, b.len() as int)[k] == b[hdr_end + k]);
    }
    assert(((r.port / 256) as u8) as nat * 256 + ((r.port % 256) as u8) as nat == r.port as nat);
    match r.address {
        AddressSpec::Ipv4(o) => {
            assert(b.subrange(hdr_end + 1, hdr_end + 5) =~= o);
            assert(b.subrange(hdr_end + 5, b.len() as int) =~= rest);
        },
        AddressSpec::Domain(d) => {
            let e = vstd::utf8::encode_utf8(d);
            let dl = e.len() as int;
            assert(b[hdr_end + 1] == dl as u8);
            assert(b.subrange(hdr_end + 2, hdr_end + 2 + dl) =~= e);
            vstd::utf8::encode_utf8_valid_utf8(d);
            vstd::utf8::encode_utf8_decode_utf8(d);
            assert(b.subrange(hdr_end + 2 + dl, b.len() as int) =~= rest);
        },
        AddressSpec::Ipv6(o) => {
            assert(b.subrange(hdr_end + 1, hdr_end + 17) =~= o);
            assert(b.subrange(hdr_end + 17, b.len() as int) =~= rest);
        },
    }
}

// ---------------------------------------------------------------------------
// Executable codec

impl Command {
    pub fn try_from(value: u8) -> (r: Result<Command, ProtocolError>)
        ensures
            match command_of(value) {
                Some(c) => r == Ok::<Command, ProtocolError>(c),
                None => r == Err::<Command, ProtocolError>(ProtocolError::InvalidCommand(value)),
            },
    {
        if value == 1 {
            Ok(Command::Tcp)
        } else if value == 2 {
            Ok(Command::Udp)
        } else if value == 3 {
            Ok(Command::Mux)
        } else {
            Err(ProtocolError::InvalidCommand(value))
        }
    }
}

impl AddressType {
    pub fn try_from(value: u8) -> (r: Result<AddressType, ProtocolError>)
        ensures
            match address_type_of(value) {
                Some(t) => r == Ok::<AddressType, ProtocolError>(t),
                None => r == Err::<AddressType, ProtocolError>(ProtocolError::InvalidAddressType(value)),
            },
    {
        if value == 1 {
            Ok(AddressType::Ipv4)
        } else if value == 2 {
            Ok(AddressType::Domain)
        } else if value == 3 {
            Ok(AddressType::Ipv6)
        } else {
            Err(ProtocolError::InvalidAddressType(value))
        }
    }
}

/// Copies `b[start..end]` into a new vector.
pub fn copy_range(b: &[u8], start: usize, end: usize) -> (r: Vec<u8>)
    requires
        start <= end <= b@.len(),
    ensures
        r@ == b@.subrange(start as int, end as int),
{
    let mut r: Vec<u8> = Vec::with_capacity(end - start);
    let mut i: usize = start;
    while i < end
        invariant
            start <= i <= end <= b@.len(),
            r@ == b@.subrange(start as int, i as int),
        decreases end - i,
    {
        r.push(b[i]);
        i = i + 1;
        assert(r@ =~= b@.subrange(start as int, i as int));
    }
    r
}

/// Whether `needle` occurs in `hay` at index `i`.
fn occurs_at_exec(hay: &[u8], needle: &[u8], i: usize) -> (r: bool)
    ensures
        r == occurs_at(hay@, needle@, i as int),
{
    if i > hay.len() || needle.len() > hay.len() - i {
        return false;
    }
    let mut j: usize = 0;
    while j < needle.len()
        invariant
            i + needle@.len() <= hay@.len(),
            hay@.len() <= usize::MAX,
            j <= needle@.len(),
            forall|k: int| 0 <= k < j ==> hay@[i + k] == needle@[k],
        decreases needle@.len() - j,
    {
        assert(i + j < hay@.len());
        if hay[i + j] != needle[j] {
            assert(hay@.subrange(i as int, i + needle@.len())[j as int] != needle@[j as int]);
            return false;
        }
        j = j + 1;
    }
    assert(hay@.subrange(i as int, i + needle@.len()) =~= needle@);
    true
}

/// Whether `needle` occurs anywhere in `hay`.
pub fn contains_subslice(hay: &[u8], needle: &[u8]) -> (r: bool)
    ensures
        r == contains_bytes(hay@, needle@),
{
    if needle.len() > hay.len() {
        assert forall|i: int| !occurs_at(hay@, needle@, i) by {}
        return false;
    }
    let last = hay.len() - needle.len();
    let mut i: usize = 0;
    while i <= last
        invariant
            last == hay@.len() - needle@.len(),
            forall|k: int| 0 <= k < i ==> !occurs_at(hay@, needle@, k),
        decreases last + 1 - i,
    {
        if occurs_at_exec(hay, needle, i) {
            return true;
        }
        if i == last {
            assert forall|k: int| !occurs_at(hay@, needle@, k) by {
                if 0 <= k && k <= i {
                }
            }
            return false;
        }
        i = i + 1;
    }
    false
}

fn vision_tag_bytes() -> (r: Vec<u8>)
    ensures
        r@ == vision_tag(),
{
    let r: Vec<u8> = vec![
        120u8, 116u8, 108u8, 115u8, 45u8, 114u8, 112u8, 114u8, 120u8, 45u8,
        118u8, 105u8, 115u8, 105u8, 111u8, 110u8,
    ];
    assert(r@ =~= vision_tag());
    r
}

fn vision_udp443_tag_bytes() -> (r: Vec<u8>)
    ensures
        r@ == vision_udp443_tag(),
{
    let r: Vec<u8> = vec![
        120u8, 116u8, 108u8, 115u8, 45u8, 114u8, 112u8, 114u8, 120u8, 45u8,
        118u8, 105u8, 115u8, 105u8, 111u8, 110u8, 45u8, 117u8, 100u8, 112u8, 52u8, 52u8, 51u8,
    ];
    assert(r@ =~= vision_udp443_tag());
    r
}

/// The flow that an addons payload selects (substring match of the tags).
pub fn detect_flow(addons: &[u8]) -> (r: XtlsFlow)
    ensures
        r == flow_of(addons@),
{
    let long_tag = vision_udp443_tag_bytes();
    if contains_subslice(addons, long_tag.as_slice()) {
        return XtlsFlow::XtlsRprxVisionUdp443;
    }
    let short_tag = vision_tag_bytes();
    if contains_subslice(addons, short_tag.as_slice()) {
        XtlsFlow::XtlsRprxVision
    } else {
        XtlsFlow::Plain
    }
}

/// Reads the 16 bytes at `start` as a big-endian integer.
pub fn read_be_u128(b: &[u8], start: usize) -> (r: u128)
    requires
        start + 16 <= b@.len(),
    ensures
        r as nat == be_uint(b@.subrange(start as int, start + 16)),
{
    let mut acc: u128 = 0;
    let mut i: usize = 0;
    let len = b.len();
    proof {
        lemma_pow256_16();
        assert(len == b@.len());
    }
    while i < 16
        invariant
            start + 16 <= b@.len(),
            b@.len() <= usize::MAX,
            i <= 16,
            acc as nat == be_uint(b@.subrange(start as int, start + i)),
            pow(256, 16) == 0x1_0000_0000_0000_0000_0000_0000_0000_0000int,
        decreases 16 - i,
    {
        let ghost prefix = b@.subrange(start as int, start + i);
        let ghost next = b@.subrange(start as int, start + i + 1);
        proof {
            lemma_be_uint_bound(prefix);
            lemma_pow_increases(256, (i + 1) as nat, 16);
            reveal(pow);
            assert(pow(256, (i + 1) as nat) == 256 * pow(256, i as nat));
            assert(next.drop_last() =~= prefix);
            let a = acc as int;
            let p = pow(256, i as nat);
            assert(a * 256 + 255 < p * 256) by (nonlinear_arith)
                requires
                    a < p,
            ;
            assert(pow(256, (i + 1) as nat) <= pow(256, 16));
            assert(a * 256 + 255 < 0x1_0000_0000_0000_0000_0000_0000_0000_0000int);
        }
        acc = acc * 256 + b[start + i] as u128;
        i = i + 1;
    }
    acc
}

impl Address {
    /// Decodes the tagged address that starts at `pos`; returns it with the
    /// index just past it.
    pub fn decode(buf: &[u8], pos: usize) -> (r: Result<(Address, usize), ProtocolError>)
        ensures
            match spec_decode_address(buf@, pos as int) {
                Ok((a, end)) => r is Ok && r->Ok_0.0@ == a && r->Ok_0.1 == end,
                Err(e) => r == Err::<(Address, usize), ProtocolError>(e),
            },
    {
        if pos >= buf.len() {
            return Err(ProtocolError::TooShort);
        }
        let tag = buf[pos];
        let t = AddressType::try_from(tag);
        match t {
            Err(e) => Err(e),
            Ok(AddressType::Ipv4) => {
                if buf.len() - pos < 5 {
                    return Err(ProtocolError::TooShort);
                }
                let o = [buf[pos + 1], buf[pos + 2], buf[pos + 3], buf[pos + 4]];
                assert(o@ =~= buf@.subrange(pos + 1, pos + 5));
                Ok((Address::Ipv4(o), pos + 5))
            },
            Ok(AddressType::Domain) => {
                if buf.len() - pos < 2 {
                    return Err(ProtocolError::TooShort);
                }
                let dl = buf[pos + 1] as usize;
                if dl == 0 {
                    return Err(ProtocolError::EmptyDomain);
                }
                if buf.len() - pos - 2 < dl {
                    return Err(ProtocolError::TooShort);
                }
                let bytes = copy_range(buf, pos + 2, pos + 2 + dl);
                match string_from_utf8(bytes) {
                    None => Err(ProtocolError::InvalidDomain),
                    Some(s) => Ok((Address::Domain(s), pos + 2 + dl)),
                }
            },
            Ok(AddressType::Ipv6) => {
                if buf.len() - pos < 17 {
                    return Err(ProtocolError::TooShort);
                }
                let p = pos + 1;
                let o = [
                    buf[p], buf[p + 1], buf[p + 2], buf[p + 3], buf[p + 4], buf[p + 5], buf[p + 6],
                    buf[p + 7], buf[p + 8], buf[p + 9], buf[p + 10], buf[p + 11], buf[p + 12],
                    buf[p + 13], buf[p + 14], buf[p + 15],
                ];
                assert(o@ =~= buf@.subrange(pos + 1, pos + 17));
                Ok((Address::Ipv6(o), pos + 17))
            },
        }
    }
}

/// The endpoint of an address literal with a port; a domain has none.
pub open spec fn spec_endpoint(a: AddressSpec, port: u16) -> Option<crate::server::Endpoint> {
    match a {
        AddressSpec::Ipv4(o) => Some(crate::server::Endpoint { is_ipv6: false, ip: be_uint(o) as u128, port }),
        AddressSpec::Ipv6(o) => Some(crate::server::Endpoint { is_ipv6: true, ip: be_uint(o) as u128, port }),
        AddressSpec::Domain(_) => None,
    }
}

impl Address {
    /// The socket endpoint of an IP address; a domain must be resolved first.
    pub fn to_socket_addr(&self, port: u16) -> (r: Result<crate::server::Endpoint, ProtocolError>)
        ensures
            match spec_endpoint(self@, port) {
                Some(e) => r == Ok::<crate::server::Endpoint, ProtocolError>(e),
                None => r == Err::<crate::server::Endpoint, ProtocolError>(ProtocolError::DomainNeedsResolution),
            },
    {
        match self {
            Address::Ipv4(o) => {
                let ip = crate::frame::read_be(o, 0, 4);
                assert(o@.subrange(0, 4) =~= o@);
                Ok(crate::server::Endpoint { is_ipv6: false, ip: ip as u128, port })
            },
            Address::Ipv6(o) => {
                let ip = read_be_u128(o, 0);
                assert(o@.subrange(0, 16) =~= o@);
                Ok(crate::server::Endpoint { is_ipv6: true, ip, port })
            },
            Address::Domain(_) => Err(ProtocolError::DomainNeedsResolution),
        }
    }
}

impl VlessRequest {
    /// Decodes a request header from one contiguous buffer; returns the
    /// request and the bytes that follow it (the first upload chunk).
    pub fn decode(buf: &[u8]) -> (r: Result<(VlessRequest, Vec<u8>), ProtocolError>)
        ensures
            match spec_decode(buf@) {
                Ok((req, rest)) => r is Ok && r->Ok_0.0@ == req && r->Ok_0.1@ == rest
                    && r->Ok_0.0.well_formed(),
                Err(e) => r == Err::<(VlessRequest, Vec<u8>), ProtocolError>(e),
            },
    {
        if buf.len() < MIN_HEADER_LEN {
            return Err(ProtocolError::TooShort);
        }
        let version = buf[0];
        if version != VLESS_VERSION_BETA && version != VLESS_VERSION_RELEASE {
            return Err(ProtocolError::UnsupportedVersion(version));
        }
        let uuid = read_be_u128(buf, 1);
        let addons_length = buf[17];
        let l = addons_length as usize;
        if buf.len() - 18 < l + 4 {
            return Err(ProtocolError::TooShort);
        }
        let addons = copy_range(buf, 18, 18 + l);
        let command = match Command::try_from(buf[18 + l]) {
            Ok(c) => c,
            Err(e) => return Err(e),
        };
        let port: u16 = (buf[19 + l] as u16) * 256 + buf[20 + l] as u16;
        let (address, end) = match Address::decode(buf, 21 + l) {
            Ok(p) => p,
            Err(e) => return Err(e),
        };
        let xtls_flow = detect_flow(addons.as_slice());
        let remaining = copy_range(buf, end, buf.len());
        let request = VlessRequest {
            version,
            uuid,
            addons_length,
            addons,
            xtls_flow,
            command,
            port,
            address,
        };
        Ok((request, remaining))
    }
}

impl VlessResponse {
    pub fn new_with_version(version: u8) -> (r: VlessResponse)
        ensures
            r.version == version,
            r.addons_length == 0,
            r.addons@.len() == 0,
    {
        VlessResponse { version, addons_length: 0, addons: Vec::new() }
    }

    /// The frame as sent: version, addons length, addons.
    pub fn encode(&self) -> (r: Vec<u8>)
        ensures
            r@ == seq![self.version, self.addons_length] + self.addons@,
    {
        let mut buf: Vec<u8> = Vec::new();
        buf.push(self.version);
        buf.push(self.addons_length);
        let mut i: usize = 0;
        while i < self.addons.len()
            invariant
                i <= self.addons@.len(),
                buf@ == seq![self.version, self.addons_length] + self.addons@.subrange(0, i as int),
            decreases self.addons@.len() - i,
        {
            buf.push(self.addons[i]);
            i = i + 1;
            assert(buf@ =~= seq![self.version, self.addons_length] + self.addons@.subrange(0, i as int));
        }
        assert(self.addons@.subrange(0, self.addons@.len() as int) =~= self.addons@);
        buf
    }
}

/// The response frame `[version, 0]` that answers an accepted request.
pub fn encode_response(version: u8) -> (r: Vec<u8>)
    ensures
        r@ == spec_response(version),
{
    let resp = VlessResponse::new_with_version(version);
    let r = resp.encode();
    assert(r@ =~= spec_response(version));
    r
}

} // verus!
