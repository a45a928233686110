use vstd::prelude::*;
use vstd::string::StringSliceAdditionalSpecFns;
use vstd::utf8::{valid_utf8, decode_utf8};
use crate::text::{
    all_ascii, append_bytes, decimal, decimal_bytes, lemma_ascii_valid_utf8, lemma_decimal_ascii,
    string_from_valid_utf8,
};

verus! {

broadcast use vstd::utf8::group_utf8_lib;

/// Bytes that stay as they are in a URL component (RFC 3986 unreserved).
pub open spec fn is_unreserved(b: u8) -> bool {
    (48 <= b && b <= 57) || (65 <= b && b <= 90) || (97 <= b && b <= 122) || b == 45 || b == 95
        || b == 46 || b == 126
}

/// Lower-case hexadecimal digit for a value below 16.
pub open spec fn hex_lower(v: nat) -> u8 {
    if v < 10 {
        (48 + v) as u8
    } else {
        (87 + v) as u8
    }
}

pub open spec fn encode_byte(b: u8) -> Seq<u8> {
    if is_unreserved(b) {
        seq![b]
    } else {
        seq![37u8, hex_lower(b as nat / 16), hex_lower(b as nat % 16)]
    }
}

/// Percent-encoding of every byte that is not unreserved, with lower-case
/// hexadecimal digits.
pub open spec fn url_encoded(s: Seq<u8>) -> Seq<u8>
    decreases s.len(),
{
    if s.len() == 0 {
        Seq::empty()
    } else {
        url_encoded(s.drop_last()) + encode_byte(s.last())
    }
}

pub proof fn lemma_url_encoded_ascii(s: Seq<u8>)
    ensures
        all_ascii(url_encoded(s)),
    decreases s.len(),
{
    if s.len() > 0 {
        lemma_url_encoded_ascii(s.drop_last());
        let a = url_encoded(s.drop_last());
        let e = encode_byte(s.last());
        assert forall|i: int| 0 <= i < (a + e).len() implies #[trigger] (a + e)[i] < 128 by {
            if i < a.len() {
                assert((a + e)[i] == a[i]);
            }
        }
    }
}

fn hex_digit_lower(v: u8) -> (r: u8)
    requires
        v < 16,
    ensures
        r == hex_lower(v as nat),
{
    if v < 10 {
        48 + v
    } else {
        87 + v
    }
}

pub fn url_encode_bytes(s: &[u8]) -> (r: Vec<u8>)
    ensures
        r@ == url_encoded(s@),
{
    let mut out: Vec<u8> = Vec::new();
    let mut i: usize = 0;
    while i < s.len()
        invariant
            i <= s@.len(),
            out@ == url_encoded(s@.subrange(0, i as int)),
        decreases s@.len() - i,
    {
        let b = s[i];
        let ghost next = s@.subrange(0, i + 1);
        assert(next.drop_last() =~= s@.subrange(0, i as int));
        let ghost before = out@;
        if (48 <= b && b <= 57) || (65 <= b && b <= 90) || (97 <= b && b <= 122) || b == 45 || b == 95
            || b == 46 || b == 126 {
            out.push(b);
        } else {
            out.push(37);
            out.push(hex_digit_lower(b / 16));
            out.push(hex_digit_lower(b % 16));
        }
        assert(out@ =~= before + encode_byte(b));
        i = i + 1;
    }
    assert(s@.subrange(0, s@.len() as int) =~= s@);
    out
}

/// Percent-encodes a URL component.
pub fn url_encode(input: &str) -> (r: String)
    ensures
        r@ == decode_utf8(url_encoded(input.spec_bytes())),
{
    let bytes = url_encode_bytes(input.as_bytes());
    proof {
        lemma_url_encoded_ascii(input.spec_bytes());
        lemma_ascii_valid_utf8(bytes@);
    }
    string_from_valid_utf8(bytes)
}

pub open spec fn lit_scheme() -> Seq<u8> {
    seq![118u8, 108, 101, 115, 115, 58, 47, 47]
}

pub open spec fn lit_plain_params() -> Seq<u8> {
    seq![
        63u8, 101, 110, 99, 114, 121, 112, 116, 105, 111, 110, 61, 110, 111, 110, 101, 38, 115, 101, 99,
        117, 114, 105, 116, 121, 61, 110, 111, 110, 101, 38, 116, 121, 112, 101, 61, 116, 99, 112,
    ]
}

/// First `n` bytes of `s` (all of it when shorter).
pub open spec fn take(s: Seq<u8>, n: nat) -> Seq<u8> {
    if s.len() <= n {
        s
    } else {
        s.subrange(0, n as int)
    }
}

/// `vless://UUID@IP:PORT?encryption=none&security=none&type=tcp#ALIAS`,
/// where the alias is `IP+EMAIL`, or `IP+` and the first 8 bytes of the
/// UUID when there is no email, percent-encoded.
pub open spec fn spec_vless_url(uuid: Seq<u8>, ip: Seq<u8>, port: u16, email: Option<Seq<u8>>) -> Seq<u8> {
    let label = match email {
        Some(e) => e,
        None => take(uuid, 8),
    };
    lit_scheme() + uuid + seq![64u8] + ip + seq![58u8] + decimal(port as nat) + lit_plain_params()
        + seq![35u8] + url_encoded(ip + seq![43u8] + label)
}

/// Builds the share link for one user.
pub fn generate_vless_url(uuid: &str, server_ip: &str, port: u16, email: Option<&str>) -> (r: String)
    ensures
        r@ == decode_utf8(
            spec_vless_url(
                uuid.spec_bytes(),
                server_ip.spec_bytes(),
                port,
                match email {
                    Some(e) => Some(e.spec_bytes()),
                    None => None,
                },
            ),
        ),
{
    let u = uuid.as_bytes();
    let ip = server_ip.as_bytes();
    let mut suffix: Vec<u8> = Vec::new();
    append_bytes(&mut suffix, ip);
    suffix.push(43);
    match email {
        Some(e) => {
            append_bytes(&mut suffix, e.as_bytes());
        },
        None => {
            let n: usize = if u.len() < 8 {
                u.len()
            } else {
                8
            };
            let head = crate::protocol::copy_range(u, 0, n);
            assert(u@.len() <= 8 ==> u@.subrange(0, n as int) =~= u@);
            append_bytes(&mut suffix, head.as_slice());
        },
    }
    let alias = url_encode_bytes(suffix.as_slice());
    let mut out: Vec<u8> = vec![118, 108, 101, 115, 115, 58, 47, 47];
    assert(out@ =~= lit_scheme());
    append_bytes(&mut out, u);
    out.push(64);
    append_bytes(&mut out, ip);
    out.push(58);
    let digits = decimal_bytes(port as u64);
    append_bytes(&mut out, digits.as_slice());
    let params: Vec<u8> = vec![
        63, 101, 110, 99, 114, 121, 112, 116, 105, 111, 110, 61, 110, 111, 110, 101, 38, 115, 101, 99,
        117, 114, 105, 116, 121, 61, 110, 111, 110, 101, 38, 116, 121, 112, 101, 61, 116, 99, 112,
    ];
    assert(params@ =~= lit_plain_params());
    append_bytes(&mut out, params.as_slice());
    out.push(35);
    append_bytes(&mut out, alias.as_slice());
    let ghost label = match email {
        Some(e) => e.spec_bytes(),
        None => take(u@, 8),
    };
    assert(suffix@ =~= ip@ + seq![43u8] + label);
    let ghost spec_email = match email {
        Some(e) => Some(e.spec_bytes()),
        None => None,
    };
    assert(out@ =~= spec_vless_url(u@, ip@, port, spec_email));
    proof {
        lemma_decimal_ascii(port as nat);
        lemma_url_encoded_ascii(suffix@);
        lemma_ascii_valid_utf8(lit_scheme());
        lemma_ascii_valid_utf8(seq![64u8]);
        lemma_ascii_valid_utf8(seq![58u8]);
        lemma_ascii_valid_utf8(decimal(port as nat));
        lemma_ascii_valid_utf8(lit_plain_params());
        lemma_ascii_valid_utf8(seq![35u8]);
        lemma_ascii_valid_utf8(alias@);
        assert(valid_utf8(u@));
        assert(valid_utf8(ip@));
        assert(valid_utf8(lit_scheme() + u@));
        assert(valid_utf8(lit_scheme() + u@ + seq![64u8]));
        assert(valid_utf8(lit_scheme() + u@ + seq![64u8] + ip@));
        assert(valid_utf8(lit_scheme() + u@ + seq![64u8] + ip@ + seq![58u8]));
        assert(valid_utf8(lit_scheme() + u@ + seq![64u8] + ip@ + seq![58u8] + decimal(port as nat)));
        assert(valid_utf8(lit_scheme() + u@ + seq![64u8] + ip@ + seq![58u8] + decimal(port as nat) + lit_plain_params()));
        assert(valid_utf8(lit_scheme() + u@ + seq![64u8] + ip@ + seq![58u8] + decimal(port as nat) + lit_plain_params() + seq![35u8]));
    }
    string_from_valid_utf8(out)
}

} // verus!
