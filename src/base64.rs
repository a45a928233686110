use vstd::prelude::*;

verus! {

/// Symbol of the standard base64 alphabet for a 6-bit value.
pub open spec fn b64_symbol(v: nat) -> u8 {
    if v < 26 {
        (65 + v) as u8
    } else if v < 52 {
        (71 + v) as u8
    } else if v < 62 {
        (v - 4) as u8
    } else if v == 62 {
        43
    } else {
        47
    }
}

/// Standard base64 (with `=` padding) of `s[i..]`.
pub open spec fn b64_from(s: Seq<u8>, i: int) -> Seq<u8>
    decreases s.len() - i,
{
    if i < 0 || i >= s.len() {
        Seq::empty()
    } else if s.len() - i >= 3 {
        let n = s[i] as nat * 65536 + s[i + 1] as nat * 256 + s[i + 2] as nat;
        seq![b64_symbol(n / 262144), b64_symbol((n / 4096) % 64), b64_symbol((n / 64) % 64), b64_symbol(n % 64)]
            + b64_from(s, i + 3)
    } else if s.len() - i == 2 {
        let n = s[i] as nat * 65536 + s[i + 1] as nat * 256;
        seq![b64_symbol(n / 262144), b64_symbol((n / 4096) % 64), b64_symbol((n / 64) % 64), 61u8]
    } else {
        let n = s[i] as nat * 65536;
        seq![b64_symbol(n / 262144), b64_symbol((n / 4096) % 64), 61u8, 61u8]
    }
}

/// Standard base64 of a byte string.
pub open spec fn base64_encode(s: Seq<u8>) -> Seq<u8> {
    b64_from(s, 0)
}

fn symbol(v: u32) -> (r: u8)
    requires
        v < 64,
    ensures
        r == b64_symbol(v as nat),
{
    if v < 26 {
        (65 + v) as u8
    } else if v < 52 {
        (71 + v) as u8
    } else if v < 62 {
        (v - 4) as u8
    } else if v == 62 {
        43
    } else {
        47
    }
}

/// Encodes bytes as standard base64 with padding.
pub fn encode(data: &[u8]) -> (r: Vec<u8>)
    ensures
        r@ == base64_encode(data@),
{
    let mut out: Vec<u8> = Vec::new();
    let mut i: usize = 0;
    let len = data.len();
    while i < len
        invariant
            len == data@.len(),
            i <= len,
            out@ + b64_from(data@, i as int) == base64_encode(data@),
        decreases len - i,
    {
        let ghost before = out@;
        if len - i >= 3 {
            let n: u32 = (data[i] as u32) * 65536 + (data[i + 1] as u32) * 256 + data[i + 2] as u32;
            assert(n / 262144 < 64) by (nonlinear_arith)
                requires
                    n < 16777216,
            ;
            out.push(symbol(n / 262144));
            out.push(symbol((n / 4096) % 64));
            out.push(symbol((n / 64) % 64));
            out.push(symbol(n % 64));
            assert(out@ + b64_from(data@, i + 3) =~= before + b64_from(data@, i as int));
            i = i + 3;
        } else if len - i == 2 {
            let n: u32 = (data[i] as u32) * 65536 + (data[i + 1] as u32) * 256;
            assert(n / 262144 < 64) by (nonlinear_arith)
                requires
                    n < 16777216,
            ;
            out.push(symbol(n / 262144));
            out.push(symbol((n / 4096) % 64));
            out.push(symbol((n / 64) % 64));
            out.push(61);
            assert(out@ =~= before + b64_from(data@, i as int));
            assert(b64_from(data@, len as int) =~= Seq::empty());
            assert(out@ + b64_from(data@, len as int) =~= out@);
            i = len;
        } else {
            let n: u32 = (data[i] as u32) * 65536;
            assert(n / 262144 < 64) by (nonlinear_arith)
                requires
                    n < 16777216,
            ;
            out.push(symbol(n / 262144));
            out.push(symbol((n / 4096) % 64));
            out.push(61);
            out.push(61);
            assert(out@ =~= before + b64_from(data@, i as int));
            assert(b64_from(data@, len as int) =~= Seq::empty());
            assert(out@ + b64_from(data@, len as int) =~= out@);
            i = len;
        }
    }
    assert(b64_from(data@, i as int) =~= Seq::empty());
    assert(out@ + b64_from(data@, i as int) =~= out@);
    out
}

} // verus!
