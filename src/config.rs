use vstd::prelude::*;
use vstd::string::StringSliceAdditionalSpecFns;
use vstd::utf8::{valid_utf8, decode_utf8, encode_utf8};
use crate::text::{
    append_bytes, bytes_eq, decimal, decimal_bytes, lemma_ascii_valid_utf8, lemma_decimal_ascii,
    string_from_valid_utf8,
};

verus! {

broadcast use vstd::utf8::group_utf8_lib;

/// Smallest relay buffer.
pub const MIN_BUFFER_SIZE: usize = 1024;

/// Largest relay buffer.
pub const MAX_BUFFER_SIZE: usize = 16777216;

/// Longest accepted UDP idle timeout, in seconds.
pub const MAX_UDP_TIMEOUT: u64 = 3600;

pub fn default_history_duration() -> (r: u64)
    ensures
        r == 60,
{
    60
}

pub fn default_broadcast_interval() -> (r: u64)
    ensures
        r == 1,
{
    1
}

pub fn default_ws_max_connections() -> (r: usize)
    ensures
        r == 300,
{
    300
}

pub fn default_ws_heartbeat_timeout() -> (r: u64)
    ensures
        r == 60,
{
    60
}

pub fn default_vless_max_connections() -> (r: usize)
    ensures
        r == 300,
{
    300
}

pub fn default_buffer_size() -> (r: usize)
    ensures
        r == 131072,
{
    128 * 1024
}

pub fn default_tcp_recv_buffer() -> (r: usize)
    ensures
        r == 262144,
{
    256 * 1024
}

pub fn default_tcp_send_buffer() -> (r: usize)
    ensures
        r == 262144,
{
    256 * 1024
}

pub fn default_tcp_nodelay() -> (r: bool)
    ensures
        r,
{
    true
}

pub fn default_stats_batch_size() -> (r: usize)
    ensures
        r == 65536,
{
    64 * 1024
}

pub fn default_udp_timeout() -> (r: u64)
    ensures
        r == 30,
{
    30
}

pub fn default_udp_recv_buffer() -> (r: usize)
    ensures
        r == 65536,
{
    64 * 1024
}

/// Monitoring settings.
#[derive(Debug, Clone)]
pub struct MonitoringConfig {
    pub speed_history_duration: u64,
    pub broadcast_interval: u64,
    pub websocket_max_connections: usize,
    pub websocket_heartbeat_timeout: u64,
    pub vless_max_connections: usize,
}

impl Default for MonitoringConfig {
    fn default() -> (r: MonitoringConfig)
        ensures
            r.speed_history_duration == 60,
            r.broadcast_interval == 1,
            r.websocket_max_connections == 300,
            r.websocket_heartbeat_timeout == 60,
            r.vless_max_connections == 300,
    {
        MonitoringConfig {
            speed_history_duration: default_history_duration(),
            broadcast_interval: default_broadcast_interval(),
            websocket_max_connections: default_ws_max_connections(),
            websocket_heartbeat_timeout: default_ws_heartbeat_timeout(),
            vless_max_connections: default_vless_max_connections(),
        }
    }
}

/// Relay and socket tuning.
#[derive(Debug, Clone)]
pub struct PerformanceConfig {
    pub buffer_size: usize,
    pub tcp_recv_buffer: usize,
    pub tcp_send_buffer: usize,
    pub tcp_nodelay: bool,
    pub stats_batch_size: usize,
    pub udp_timeout: u64,
    pub udp_recv_buffer: usize,
}

impl Default for PerformanceConfig {
    fn default() -> (r: PerformanceConfig)
        ensures
            r.buffer_size == 131072,
            r.tcp_recv_buffer == 262144,
            r.tcp_send_buffer == 262144,
            r.tcp_nodelay,
            r.stats_batch_size == 65536,
            r.udp_timeout == 30,
            r.udp_recv_buffer == 65536,
    {
        PerformanceConfig {
            buffer_size: default_buffer_size(),
            tcp_recv_buffer: default_tcp_recv_buffer(),
            tcp_send_buffer: default_tcp_send_buffer(),
            tcp_nodelay: default_tcp_nodelay(),
            stats_batch_size: default_stats_batch_size(),
            udp_timeout: default_udp_timeout(),
            udp_recv_buffer: default_udp_recv_buffer(),
        }
    }
}

pub open spec fn lit_cert_file() -> Seq<char> {
    seq!['c', 'e', 'r', 't', 's', '/', 's', 'e', 'r', 'v', 'e', 'r', '.', 'c', 'r', 't']
}

pub open spec fn lit_key_file() -> Seq<char> {
    seq!['c', 'e', 'r', 't', 's', '/', 's', 'e', 'r', 'v', 'e', 'r', '.', 'k', 'e', 'y']
}

pub open spec fn lit_localhost() -> Seq<char> {
    seq!['l', 'o', 'c', 'a', 'l', 'h', 'o', 's', 't']
}

pub fn default_cert_file() -> (r: String)
    ensures
        r@ == lit_cert_file(),
{
    let r = String::from_str("certs/server.crt");
    proof {
        reveal_strlit("certs/server.crt");
    }
    r
}

pub fn default_key_file() -> (r: String)
    ensures
        r@ == lit_key_file(),
{
    let r = String::from_str("certs/server.key");
    proof {
        reveal_strlit("certs/server.key");
    }
    r
}

pub fn default_server_name() -> (r: String)
    ensures
        r@ == lit_localhost(),
{
    let r = String::from_str("localhost");
    proof {
        reveal_strlit("localhost");
    }
    r
}

/// TLS material and the advertised server name.
#[derive(Debug, Clone)]
pub struct TlsConfig {
    pub enabled: bool,
    pub cert_file: String,
    pub key_file: String,
    pub server_name: String,
}

impl Default for TlsConfig {
    fn default() -> (r: TlsConfig)
        ensures
            !r.enabled,
            r.cert_file@ == lit_cert_file(),
            r.key_file@ == lit_key_file(),
            r.server_name@ == lit_localhost(),
    {
        TlsConfig {
            enabled: false,
            cert_file: default_cert_file(),
            key_file: default_key_file(),
            server_name: default_server_name(),
        }
    }
}

/// Transport carried on the listening port.
#[derive(Debug, Clone, Copy, PartialEq, Eq, Structural)]
pub enum TransportProtocol {
    Tcp,
    WebSocket,
}

#[derive(Debug, Clone)]
pub struct ServerSettings {
    pub listen: String,
    pub port: u16,
    pub protocol: TransportProtocol,
    pub ws_path: String,
}

#[derive(Debug, Clone)]
pub struct UserConfig {
    pub uuid: String,
    pub email: Option<String>,
}

/// The configuration file.
#[derive(Debug, Clone)]
pub struct Config {
    pub server: ServerSettings,
    pub users: Vec<UserConfig>,
    pub monitoring: MonitoringConfig,
    pub performance: PerformanceConfig,
    pub tls: TlsConfig,
    pub vless_url: Option<String>,
}

// ---------------------------------------------------------------------------
// Share link of the first user

pub open spec fn lit_security() -> Seq<u8> {
    seq![63u8, 115, 101, 99, 117, 114, 105, 116, 121, 61]
}

pub open spec fn lit_tls() -> Seq<u8> {
    seq![116u8, 108, 115]
}

pub open spec fn lit_none() -> Seq<u8> {
    seq![110u8, 111, 110, 101]
}

pub open spec fn lit_tls_params() -> Seq<u8> {
    seq![38u8, 101, 110, 99, 114, 121, 112, 116, 105, 111, 110, 61, 110, 111, 110, 101, 38, 102, 108, 111, 119, 61, 38, 115, 110, 105, 61]
}

pub open spec fn lit_alpn() -> Seq<u8> {
    seq![38u8, 97, 108, 112, 110, 61, 104, 50, 44, 104, 116, 116, 112, 47, 49, 46, 49]
}

pub open spec fn lit_plain_params() -> Seq<u8> {
    seq![38u8, 101, 110, 99, 114, 121, 112, 116, 105, 111, 110, 61, 110, 111, 110, 101, 38, 102, 108, 111, 119, 61]
}

pub open spec fn lit_type_tcp() -> Seq<u8> {
    seq![38u8, 116, 121, 112, 101, 61, 116, 99, 112, 35]
}

pub open spec fn lit_default_label() -> Seq<u8> {
    seq![118u8, 108, 101, 115, 115, 45, 114, 117, 115, 116]
}

pub open spec fn lit_any_address() -> Seq<u8> {
    seq![48u8, 46, 48, 46, 48, 46, 48]
}

pub open spec fn lit_loopback() -> Seq<u8> {
    seq![49u8, 50, 55, 46, 48, 46, 48, 46, 49]
}

/// Spaces written as `%20`.
pub open spec fn escape_spaces(s: Seq<u8>) -> Seq<u8>
    decreases s.len(),
{
    if s.len() == 0 {
        Seq::empty()
    } else if s.last() == 32 {
        escape_spaces(s.drop_last()) + seq![37u8, 50, 48]
    } else {
        escape_spaces(s.drop_last()).push(s.last())
    }
}

/// Index of the last space byte, or -1.
pub open spec fn last_space(s: Seq<u8>) -> int
    decreases s.len(),
{
    if s.len() == 0 {
        -1
    } else if s.last() == 32 {
        s.len() - 1
    } else {
        last_space(s.drop_last())
    }
}

proof fn lemma_last_space(s: Seq<u8>)
    ensures
        -1 <= last_space(s) < s.len(),
        last_space(s) >= 0 ==> s[last_space(s)] == 32,
        forall|i: int| last_space(s) < i < s.len() ==> s[i] != 32,
        last_space(s) == -1 ==> escape_spaces(s) == s,
        last_space(s) >= 0 ==> escape_spaces(s) == escape_spaces(s.subrange(0, last_space(s)))
            + seq![37u8, 50, 48] + s.subrange(last_space(s) + 1, s.len() as int),
    decreases s.len(),
{
    if s.len() > 0 {
        lemma_last_space(s.drop_last());
        let k = last_space(s);
        if s.last() == 32 {
            assert(s.subrange(0, k) =~= s.drop_last());
            assert(s.subrange(k + 1, s.len() as int) =~= Seq::<u8>::empty());
            assert(escape_spaces(s) =~= escape_spaces(s.subrange(0, k)) + seq![37u8, 50, 48]
                + s.subrange(k + 1, s.len() as int));
        } else if k >= 0 {
            assert(s.drop_last().subrange(0, k) =~= s.subrange(0, k));
            assert(s.drop_last().subrange(k + 1, s.len() - 1).push(s.last()) =~= s.subrange(k + 1, s.len() as int));
            assert(escape_spaces(s) =~= escape_spaces(s.subrange(0, k)) + seq![37u8, 50, 48]
                + s.subrange(k + 1, s.len() as int));
        } else {
            assert(escape_spaces(s) =~= s);
        }
        assert forall|i: int| last_space(s) < i < s.len() implies s[i] != 32 by {
            if i < s.len() - 1 {
                assert(s[i] == s.drop_last()[i]);
            }
        }
    }
}

/// Escaping spaces keeps UTF-8 valid: a space is a one-byte character, so
/// the text splits around it into valid pieces.
pub proof fn lemma_escape_spaces_valid(s: Seq<u8>)
    requires
        valid_utf8(s),
    ensures
        valid_utf8(escape_spaces(s)),
    decreases s.len(),
{
    lemma_last_space(s);
    let k = last_space(s);
    if k >= 0 {
        assert(!vstd::utf8::is_continuation_byte(32u8)) by (bit_vector);
        assert(vstd::utf8::is_leading_byte_width_1(32u8)) by (bit_vector);
        vstd::utf8::is_char_boundary_iff_not_is_continuation_byte(s, k);
        vstd::utf8::valid_utf8_split(s, k);
        let pre = s.subrange(0, k);
        let tail = s.subrange(k, s.len() as int);
        let post = s.subrange(k + 1, s.len() as int);
        assert(tail.subrange(1, tail.len() as int) =~= post);
        assert(tail[0] == 32);
        assert(vstd::utf8::pop_first_scalar(tail) =~= post);
        assert(valid_utf8(tail));
        assert(valid_utf8(post));
        lemma_escape_spaces_valid(pre);
        lemma_ascii_valid_utf8(seq![37u8, 50, 48]);
        let e = escape_spaces(pre);
        assert(valid_utf8(e + seq![37u8, 50, 48]));
        assert(valid_utf8(e + seq![37u8, 50, 48] + post));
    }
}

fn escape_spaces_bytes(s: &[u8]) -> (r: Vec<u8>)
    ensures
        r@ == escape_spaces(s@),
{
    let mut out: Vec<u8> = Vec::new();
    let mut i: usize = 0;
    while i < s.len()
        invariant
            i <= s@.len(),
            out@ == escape_spaces(s@.subrange(0, i as int)),
        decreases s@.len() - i,
    {
        let ghost next = s@.subrange(0, i + 1);
        assert(next.drop_last() =~= s@.subrange(0, i as int));
        let ghost before = out@;
        if s[i] == 32 {
            out.push(37);
            out.push(50);
            out.push(48);
            assert(out@ =~= before + seq![37u8, 50, 48]);
        } else {
            out.push(s[i]);
        }
        i = i + 1;
    }
    assert(s@.subrange(0, s@.len() as int) =~= s@);
    out
}

/// Link for the first user: `vless://UUID@HOST:PORT?security=S&encryption=none&flow=`
/// (with `&sni=NAME&alpn=h2,http/1.1` under TLS) `&type=tcp#REMARKS`. The
/// wildcard address becomes the loopback address; the remarks are the email
/// (or `vless-rust`) with spaces written `%20`.
pub open spec fn spec_config_url(
    uuid: Seq<u8>,
    listen: Seq<u8>,
    port: u16,
    tls: bool,
    server_name: Seq<u8>,
    email: Option<Seq<u8>>,
) -> Seq<u8> {
    let host = if listen == lit_any_address() {
        lit_loopback()
    } else {
        listen
    };
    let security = if tls {
        lit_tls()
    } else {
        lit_none()
    };
    let params = if tls {
        lit_tls_params() + server_name + lit_alpn()
    } else {
        lit_plain_params()
    };
    let remarks = escape_spaces(
        match email {
            Some(e) => e,
            None => lit_default_label(),
        },
    );
    crate::utils::lit_scheme() + uuid + seq![64u8] + host + seq![58u8] + decimal(port as nat) + lit_security()
        + security + params + lit_type_tcp() + remarks
}

pub open spec fn opt_bytes(e: Option<String>) -> Option<Seq<u8>> {
    match e {
        Some(s) => Some(encode_utf8(s@)),
        None => None,
    }
}

proof fn lemma_all_valid(a: Seq<u8>, b: Seq<u8>)
    requires
        valid_utf8(a),
        valid_utf8(b),
    ensures
        valid_utf8(a + b),
{
}

impl Config {
    /// The share link of the first user, or an empty string without users.
    pub fn generate_vless_url(&self) -> (r: String)
        ensures
            self.users@.len() == 0 ==> r@.len() == 0,
            self.users@.len() > 0 ==> r@ == decode_utf8(
                spec_config_url(
                    encode_utf8(self.users@[0].uuid@),
                    encode_utf8(self.server.listen@),
                    self.server.port,
                    self.tls.enabled,
                    encode_utf8(self.tls.server_name@),
                    opt_bytes(self.users@[0].email),
                ),
            ),
    {
        if self.users.len() == 0 {
            return String::new();
        }
        let user = &self.users[0];
        let uuid = user.uuid.as_str().as_bytes();
        let listen = self.server.listen.as_str().as_bytes();
        let any: Vec<u8> = vec![48, 46, 48, 46, 48, 46, 48];
        assert(any@ =~= lit_any_address());
        let mut out: Vec<u8> = vec![118, 108, 101, 115, 115, 58, 47, 47];
        assert(out@ =~= crate::utils::lit_scheme());
        append_bytes(&mut out, uuid);
        out.push(64);
        let ghost host: Seq<u8>;
        if bytes_eq(listen, any.as_slice()) {
            let lo: Vec<u8> = vec![49, 50, 55, 46, 48, 46, 48, 46, 49];
            assert(lo@ =~= lit_loopback());
            append_bytes(&mut out, lo.as_slice());
            proof {
                host = lit_loopback();
            }
        } else {
            append_bytes(&mut out, listen);
            proof {
                host = listen@;
            }
        }
        out.push(58);
        let digits = decimal_bytes(self.server.port as u64);
        append_bytes(&mut out, digits.as_slice());
        let sec: Vec<u8> = vec![63, 115, 101, 99, 117, 114, 105, 116, 121, 61];
        assert(sec@ =~= lit_security());
        append_bytes(&mut out, sec.as_slice());
        let ghost security: Seq<u8>;
        let ghost params: Seq<u8>;
        let name = self.tls.server_name.as_str().as_bytes();
        if self.tls.enabled {
            let t: Vec<u8> = vec![116, 108, 115];
            assert(t@ =~= lit_tls());
            append_bytes(&mut out, t.as_slice());
            let sni_part: Vec<u8> = vec![38, 101, 110, 99, 114, 121, 112, 116, 105, 111, 110, 61, 110, 111, 110, 101, 38, 102, 108, 111, 119, 61, 38, 115, 110, 105, 61];
            assert(sni_part@ =~= lit_tls_params());
            append_bytes(&mut out, sni_part.as_slice());
            append_bytes(&mut out, name);
            let alpn_part: Vec<u8> = vec![38, 97, 108, 112, 110, 61, 104, 50, 44, 104, 116, 116, 112, 47, 49, 46, 49];
            assert(alpn_part@ =~= lit_alpn());
            append_bytes(&mut out, alpn_part.as_slice());
            proof {
                security = lit_tls();
                params = lit_tls_params() + name@ + lit_alpn();
            }
        } else {
            let t: Vec<u8> = vec![110, 111, 110, 101];
            assert(t@ =~= lit_none());
            append_bytes(&mut out, t.as_slice());
            let p: Vec<u8> = vec![38, 101, 110, 99, 114, 121, 112, 116, 105, 111, 110, 61, 110, 111, 110, 101, 38, 102, 108, 111, 119, 61];
            assert(p@ =~= lit_plain_params());
            append_bytes(&mut out, p.as_slice());
            proof {
                security = lit_none();
                params = lit_plain_params();
            }
        }
        let tt: Vec<u8> = vec![38, 116, 121, 112, 101, 61, 116, 99, 112, 35];
        assert(tt@ =~= lit_type_tcp());
        append_bytes(&mut out, tt.as_slice());
        let default_label: Vec<u8> = vec![118, 108, 101, 115, 115, 45, 114, 117, 115, 116];
        assert(default_label@ =~= lit_default_label());
        let remarks = match &user.email {
            Some(e) => escape_spaces_bytes(e.as_str().as_bytes()),
            None => escape_spaces_bytes(default_label.as_slice()),
        };
        append_bytes(&mut out, remarks.as_slice());
        let ghost label = match opt_bytes(user.email) {
            Some(e) => e,
            None => lit_default_label(),
        };
        assert(remarks@ == escape_spaces(label));
        assert(out@ =~= crate::utils::lit_scheme() + uuid@ + seq![64u8] + host + seq![58u8] + decimal(self.server.port as nat)
            + lit_security() + security + params + lit_type_tcp() + remarks@);
        proof {
            lemma_ascii_valid_utf8(lit_default_label());
            lemma_escape_spaces_valid(label);
            lemma_decimal_ascii(self.server.port as nat);
            lemma_ascii_valid_utf8(crate::utils::lit_scheme());
            lemma_ascii_valid_utf8(seq![64u8]);
            lemma_ascii_valid_utf8(seq![58u8]);
            lemma_ascii_valid_utf8(decimal(self.server.port as nat));
            lemma_ascii_valid_utf8(lit_security());
            lemma_ascii_valid_utf8(lit_tls());
            lemma_ascii_valid_utf8(lit_none());
            lemma_ascii_valid_utf8(lit_tls_params());
            lemma_ascii_valid_utf8(lit_alpn());
            lemma_ascii_valid_utf8(lit_plain_params());
            lemma_ascii_valid_utf8(lit_type_tcp());
            lemma_ascii_valid_utf8(lit_loopback());
            assert(valid_utf8(host));
            assert(valid_utf8(security));
            assert(valid_utf8(name@));
            lemma_all_valid(lit_tls_params(), name@);
            lemma_all_valid(lit_tls_params() + name@, lit_alpn());
            assert(valid_utf8(params));
            let a1 = crate::utils::lit_scheme() + uuid@;
            lemma_all_valid(crate::utils::lit_scheme(), uuid@);
            lemma_all_valid(a1, seq![64u8]);
            let a2 = a1 + seq![64u8] + host;
            lemma_all_valid(a1 + seq![64u8], host);
            lemma_all_valid(a2, seq![58u8]);
            let a3 = a2 + seq![58u8] + decimal(self.server.port as nat);
            lemma_all_valid(a2 + seq![58u8], decimal(self.server.port as nat));
            lemma_all_valid(a3, lit_security());
            lemma_all_valid(a3 + lit_security(), security);
            lemma_all_valid(a3 + lit_security() + security, params);
            lemma_all_valid(a3 + lit_security() + security + params, lit_type_tcp());
            lemma_all_valid(a3 + lit_security() + security + params + lit_type_tcp(), remarks@);
        }
        string_from_valid_utf8(out)
    }
}

// ---------------------------------------------------------------------------
// Validation

/// Why a configuration is refused at startup.
#[derive(Debug, Clone, Copy, PartialEq, Eq, Structural)]
pub enum ConfigError {
    /// Port 0.
    InvalidPort,
    /// No user configured.
    NoUsers,
    /// The user at this index has a UUID that does not parse.
    InvalidUuid(usize),
    /// The UDP idle timeout is outside 1..=3600 seconds.
    InvalidUdpTimeout(u64),
}

/// The value of a UUID string, when it parses.
pub uninterp spec fn uuid_value_of(s: Seq<char>) -> Option<u128>;

/// Relies on `uuid::Uuid::parse_str`, and on `Uuid::as_u128` for the value
/// (the 16 bytes read big-endian).
#[verifier::external_body]
fn parse_uuid(s: &str) -> (r: Option<u128>)
    ensures
        r == uuid_value_of(s@),
{
    match uuid::Uuid::parse_str(s) {
        Ok(u) => Some(u.as_u128()),
        Err(_) => None,
    }
}

/// Index of the first `None` at or after `i`, or the length.
pub open spec fn first_unparsed(p: Seq<Option<u128>>, i: int) -> int
    decreases p.len() - i,
{
    if i < 0 || i >= p.len() {
        p.len() as int
    } else if p[i] is None {
        i
    } else {
        first_unparsed(p, i + 1)
    }
}

pub open spec fn udp_timeout_ok(t: u64) -> bool {
    1 <= t && t <= 3600
}

/// The outcome of validation, given each user's parsed UUID: the user ids,
/// or the first rule that fails (port, users, UUIDs in order, timeout).
pub open spec fn spec_validate(port: u16, parsed: Seq<Option<u128>>, udp_timeout: u64) -> Result<Seq<u128>, ConfigError> {
    if port == 0 {
        Err(ConfigError::InvalidPort)
    } else if parsed.len() == 0 {
        Err(ConfigError::NoUsers)
    } else if first_unparsed(parsed, 0) < parsed.len() {
        Err(ConfigError::InvalidUuid(first_unparsed(parsed, 0) as usize))
    } else if !udp_timeout_ok(udp_timeout) {
        Err(ConfigError::InvalidUdpTimeout(udp_timeout))
    } else {
        Ok(parsed.map_values(|o: Option<u128>| o->0))
    }
}

/// Checks a configuration whose user UUIDs were parsed already
/// (`parsed[i]` for user `i`).
pub fn validate_parsed(config: &Config, parsed: &Vec<Option<u128>>) -> (r: Result<Vec<u128>, ConfigError>)
    requires
        parsed@.len() == config.users@.len(),
    ensures
        match spec_validate(config.server.port, parsed@, config.performance.udp_timeout) {
            Ok(ids) => r is Ok && r->Ok_0@ == ids,
            Err(e) => r == Err::<Vec<u128>, ConfigError>(e),
        },
{
    if config.server.port == 0 {
        return Err(ConfigError::InvalidPort);
    }
    if parsed.len() == 0 {
        return Err(ConfigError::NoUsers);
    }
    let mut ids: Vec<u128> = Vec::new();
    let mut i: usize = 0;
    while i < parsed.len()
        invariant
            config.server.port != 0,
            i <= parsed@.len(),
            first_unparsed(parsed@, 0) == first_unparsed(parsed@, i as int),
            ids@ == parsed@.subrange(0, i as int).map_values(|o: Option<u128>| o->0),
        decreases parsed@.len() - i,
    {
        match parsed[i] {
            None => {
                assert(first_unparsed(parsed@, i as int) == i);
                assert(first_unparsed(parsed@, 0) < parsed@.len());
                assert(first_unparsed(parsed@, 0) as usize == i);
                return Err(ConfigError::InvalidUuid(i));
            },
            Some(v) => {
                ids.push(v);
            },
        }
        assert(first_unparsed(parsed@, i as int) == first_unparsed(parsed@, i + 1));
        i = i + 1;
        assert(ids@ =~= parsed@.subrange(0, i as int).map_values(|o: Option<u128>| o->0));
    }
    if !(1 <= config.performance.udp_timeout && config.performance.udp_timeout <= MAX_UDP_TIMEOUT) {
        return Err(ConfigError::InvalidUdpTimeout(config.performance.udp_timeout));
    }
    assert(parsed@.subrange(0, parsed@.len() as int) =~= parsed@);
    Ok(ids)
}

/// The parsed UUID of each user.
pub open spec fn parsed_uuids(users: Seq<UserConfig>) -> Seq<Option<u128>> {
    users.map_values(|u: UserConfig| uuid_value_of(u.uuid@))
}

/// Checks a configuration before the server starts: port not 0, at least
/// one user, every UUID parses, UDP timeout within 1..=3600 seconds.
pub fn validate_config(config: &Config) -> (r: Result<Vec<u128>, ConfigError>)
    ensures
        match spec_validate(config.server.port, parsed_uuids(config.users@), config.performance.udp_timeout) {
            Ok(ids) => r is Ok && r->Ok_0@ == ids,
            Err(e) => r == Err::<Vec<u128>, ConfigError>(e),
        },
{
    let mut parsed: Vec<Option<u128>> = Vec::new();
    let mut i: usize = 0;
    while i < config.users.len()
        invariant
            i <= config.users@.len(),
            parsed@ == parsed_uuids(config.users@).subrange(0, i as int),
        decreases config.users@.len() - i,
    {
        parsed.push(parse_uuid(config.users[i].uuid.as_str()));
        i = i + 1;
        assert(parsed@ =~= parsed_uuids(config.users@).subrange(0, i as int));
    }
    assert(parsed@ =~= parsed_uuids(config.users@));
    validate_parsed(config, &parsed)
}

/// Relay buffer size within 1 KiB to 16 MiB.
pub open spec fn spec_clamp_buffer_size(n: usize) -> usize {
    if n < 1024 {
        1024
    } else if n > 16777216 {
        16777216
    } else {
        n
    }
}

pub fn clamp_buffer_size(n: usize) -> (r: usize)
    ensures
        r == spec_clamp_buffer_size(n),
{
    if n < MIN_BUFFER_SIZE {
        MIN_BUFFER_SIZE
    } else if n > MAX_BUFFER_SIZE {
        MAX_BUFFER_SIZE
    } else {
        n
    }
}

/// A WebSocket path that starts with `/` (one is prefixed otherwise).
pub open spec fn spec_ws_path(p: Seq<u8>) -> Seq<u8> {
    if p.len() > 0 && p[0] == 47 {
        p
    } else {
        seq![47u8] + p
    }
}

pub fn normalize_ws_path(path: &str) -> (r: String)
    ensures
        r@ == decode_utf8(spec_ws_path(path.spec_bytes())),
{
    let b = path.as_bytes();
    let mut out: Vec<u8> = Vec::new();
    if b.len() == 0 || b[0] != 47 {
        out.push(47);
    }
    append_bytes(&mut out, b);
    assert(out@ =~= spec_ws_path(b@));
    proof {
        lemma_ascii_valid_utf8(seq![47u8]);
        lemma_all_valid(seq![47u8], b@);
    }
    string_from_valid_utf8(out)
}

/// Largest first read that must hold a whole request header.
pub const HEADER_READ_LIMIT: usize = 4096;

/// Size of the first read of a connection: the relay buffer size, capped
/// at 4 KiB, and never zero.
pub fn header_buffer_size(buffer_size: usize) -> (r: usize)
    ensures
        r == if buffer_size == 0 {
            1
        } else if buffer_size > 4096 {
            4096
        } else {
            buffer_size
        },
{
    if buffer_size == 0 {
        1
    } else if buffer_size > HEADER_READ_LIMIT {
        HEADER_READ_LIMIT
    } else {
        buffer_size
    }
}

} // verus!
