use vstd::prelude::*;
use vstd::arithmetic::power::{pow, lemma_pow_increases};
use crate::protocol::{be_uint, lemma_be_uint_bound};
use crate::text::append_bytes;

verus! {

/// Frame opcodes of RFC 6455 that the relay acts on.
pub const OPCODE_CONTINUATION: u8 = 0;
pub const OPCODE_TEXT: u8 = 1;
pub const OPCODE_BINARY: u8 = 2;
pub const OPCODE_CLOSE: u8 = 8;
pub const OPCODE_PING: u8 = 9;
pub const OPCODE_PONG: u8 = 10;

/// A decoded WebSocket frame, payload unmasked.
#[derive(Debug, Clone, PartialEq, Eq)]
pub struct WsFrame {
    pub fin: bool,
    pub opcode: u8,
    pub payload: Vec<u8>,
}

/// Where the payload starts and how long it is, once enough header bytes
/// are present: `(payload start, payload length, masked)`.
pub open spec fn spec_frame_layout(b: Seq<u8>) -> Option<(int, nat, bool)> {
    if b.len() < 2 {
        None
    } else {
        let masked = b[1] >= 128;
        let len7 = b[1] % 128;
        let key_len: int = if masked {
            4
        } else {
            0
        };
        if len7 < 126 {
            if b.len() < 2 + key_len {
                None
            } else {
                Some((2 + key_len, len7 as nat, masked))
            }
        } else if len7 == 126 {
            if b.len() < 4 + key_len {
                None
            } else {
                Some((4 + key_len, be_uint(b.subrange(2, 4)), masked))
            }
        } else {
            if b.len() < 10 + key_len {
                None
            } else {
                Some((10 + key_len, be_uint(b.subrange(2, 10)), masked))
            }
        }
    }
}

/// The payload after unmasking with the 4-byte key that precedes it.
pub open spec fn unmasked(b: Seq<u8>, start: int, len: nat, masked: bool) -> Seq<u8> {
    Seq::new(
        len,
        |i: int|
            if masked {
                b[start + i] ^ b[start - 4 + (i % 4)]
            } else {
                b[start + i]
            },
    )
}

/// Decoding of the frame at the start of `b`: `None` while incomplete,
/// otherwise the frame and the number of bytes it took.
pub open spec fn spec_decode_frame(b: Seq<u8>) -> Option<(bool, u8, Seq<u8>, int)> {
    match spec_frame_layout(b) {
        None => None,
        Some((start, len, masked)) => if start + len > b.len() {
            None
        } else {
            Some((b[0] >= 128, b[0] % 16, unmasked(b, start, len, masked), start + len))
        },
    }
}

proof fn lemma_pow256_8()
    ensures
        pow(256, 8) == 0x1_0000_0000_0000_0000int,
        pow(256, 7) == 0x100_0000_0000_0000int,
{
    reveal_with_fuel(pow, 9);
}

/// Reads `n` (at most 8) bytes at `start` as a big-endian integer.
pub fn read_be(b: &[u8], start: usize, n: usize) -> (r: u64)
    requires
        n <= 8,
        start + n <= b@.len(),
    ensures
        r as nat == be_uint(b@.subrange(start as int, start + n)),
{
    let mut acc: u64 = 0;
    let mut i: usize = 0;
    let len = b.len();
    proof {
        lemma_pow256_8();
        assert(len == b@.len());
    }
    while i < n
        invariant
            n <= 8,
            start + n <= b@.len(),
            b@.len() <= usize::MAX,
            i <= n,
            acc as nat == be_uint(b@.subrange(start as int, start + i)),
            pow(256, 8) == 0x1_0000_0000_0000_0000int,
        decreases n - i,
    {
        let ghost prefix = b@.subrange(start as int, start + i);
        let ghost next = b@.subrange(start as int, start + i + 1);
        proof {
            lemma_be_uint_bound(prefix);
            lemma_pow_increases(256, (i + 1) as nat, 8);
            reveal(pow);
            assert(pow(256, (i + 1) as nat) == 256 * pow(256, i as nat));
            assert(next.drop_last() =~= prefix);
            let a = acc as int;
            let p = pow(256, i as nat);
            assert(a * 256 + 255 < p * 256) by (nonlinear_arith)
                requires
                    a < p,
            ;
            assert(a * 256 + 255 < 0x1_0000_0000_0000_0000int);
        }
        acc = acc * 256 + b[start + i] as u64;
        i = i + 1;
    }
    acc
}

/// Decodes one frame from the front of `buf`: `None` while more bytes are
/// needed, otherwise the frame and the number of bytes it took.
pub fn decode_frame(buf: &[u8]) -> (r: Option<(WsFrame, usize)>)
    ensures
        match r {
            None => spec_decode_frame(buf@) is None,
            Some((f, used)) => spec_decode_frame(buf@) == Some((f.fin, f.opcode, f.payload@, used as int)),
        },
{
    let n = buf.len();
    if n < 2 {
        return None;
    }
    let masked = buf[1] >= 128;
    let len7 = buf[1] % 128;
    let key_len: usize = if masked {
        4
    } else {
        0
    };
    let (start, len): (usize, u64) = if len7 < 126 {
        if n < 2 + key_len {
            return None;
        }
        (2 + key_len, len7 as u64)
    } else if len7 == 126 {
        if n < 4 + key_len {
            return None;
        }
        (4 + key_len, read_be(buf, 2, 2))
    } else {
        if n < 10 + key_len {
            return None;
        }
        (10 + key_len, read_be(buf, 2, 8))
    };
    if len > (n - start) as u64 {
        return None;
    }
    let len = len as usize;
    let mut payload: Vec<u8> = Vec::new();
    let mut i: usize = 0;
    while i < len
        invariant
            n == buf@.len(),
            start >= key_len,
            masked ==> key_len == 4,
            start + len <= n,
            i <= len,
            payload@ == unmasked(buf@, start as int, len as nat, masked).subrange(0, i as int),
        decreases len - i,
    {
        let byte = if masked {
            buf[start + i] ^ buf[start - 4 + (i % 4)]
        } else {
            buf[start + i]
        };
        payload.push(byte);
        i = i + 1;
        assert(payload@ =~= unmasked(buf@, start as int, len as nat, masked).subrange(0, i as int));
    }
    assert(unmasked(buf@, start as int, len as nat, masked).subrange(0, len as int) =~= unmasked(
        buf@,
        start as int,
        len as nat,
        masked,
    ));
    let frame = WsFrame { fin: buf[0] >= 128, opcode: buf[0] % 16, payload };
    Some((frame, start + len))
}

/// Header of an unmasked final frame with the given opcode and length.
pub open spec fn spec_frame_header(opcode: u8, len: nat) -> Seq<u8> {
    if len < 126 {
        seq![(128 + opcode) as u8, len as u8]
    } else if len < 65536 {
        seq![(128 + opcode) as u8, 126u8, (len / 256) as u8, (len % 256) as u8]
    } else {
        seq![(128 + opcode) as u8, 127u8] + crate::protocol::be_bytes(len, 8)
    }
}

/// A final, unmasked server frame carrying `payload`.
pub fn encode_frame(opcode: u8, payload: &[u8]) -> (r: Vec<u8>)
    requires
        opcode < 16,
    ensures
        r@ == spec_frame_header(opcode, payload@.len()) + payload@,
{
    let len = payload.len();
    let mut out: Vec<u8> = Vec::new();
    out.push(128 + opcode);
    if len < 126 {
        out.push(len as u8);
    } else if len < 65536 {
        out.push(126);
        out.push((len / 256) as u8);
        out.push((len % 256) as u8);
    } else {
        out.push(127);
        let mut k: usize = 8;
        let ghost head = out@;
        let l = len as u64;
        while k > 0
            invariant
                k <= 8,
                out@ == head + crate::protocol::be_bytes(l as nat, 8).subrange(0, 8 - k),
                l == len,
            decreases k,
        {
            let shift_div = pow256_exec(k - 1);
            let byte = ((l / shift_div) % 256) as u8;
            proof {
                lemma_be_bytes_index(l as nat, 8, (8 - k) as nat);
            }
            out.push(byte);
            k = k - 1;
            assert(out@ =~= head + crate::protocol::be_bytes(l as nat, 8).subrange(0, 8 - k));
        }
        proof {
            crate::protocol::lemma_be_bytes_len(l as nat, 8);
        }
        assert(crate::protocol::be_bytes(l as nat, 8).subrange(0, 8) =~= crate::protocol::be_bytes(l as nat, 8));
    }
    assert(out@ =~= spec_frame_header(opcode, len as nat));
    append_bytes(&mut out, payload);
    out
}

fn pow256_exec(k: usize) -> (r: u64)
    requires
        k < 8,
    ensures
        r as int == pow(256, k as nat),
        r > 0,
{
    proof {
        vstd::arithmetic::power::lemma_pow_positive(256, k as nat);
    }
    let mut r: u64 = 1;
    let mut i: usize = 0;
    proof {
        lemma_pow256_8();
        reveal(pow);
    }
    while i < k
        invariant
            i <= k < 8,
            r as int == pow(256, i as nat),
            pow(256, 7) == 0x100_0000_0000_0000int,
        decreases k - i,
    {
        proof {
            reveal(pow);
            lemma_pow_increases(256, (i + 1) as nat, 7);
            assert(pow(256, (i + 1) as nat) == 256 * pow(256, i as nat));
        }
        r = r * 256;
        i = i + 1;
    }
    r
}

/// Byte `j` (from the most significant end) of the `n`-byte big-endian form.
proof fn lemma_be_bytes_index(v: nat, n: nat, j: nat)
    requires
        j < n,
    ensures
        crate::protocol::be_bytes(v, n).len() == n,
        crate::protocol::be_bytes(v, n)[j as int] == ((v as int / pow(256, (n - 1 - j) as nat)) % 256) as u8,
    decreases n,
{
    crate::protocol::lemma_be_bytes_len(v, n);
    reveal(pow);
    if j == n - 1 {
        assert(pow(256, 0) == 1);
    } else {
        lemma_be_bytes_index(v / 256, (n - 1) as nat, j);
        crate::protocol::lemma_be_bytes_len(v / 256, (n - 1) as nat);
        let p = pow(256, (n - 2 - j) as nat);
        vstd::arithmetic::power::lemma_pow_positive(256, (n - 2 - j) as nat);
        assert(pow(256, (n - 1 - j) as nat) == 256 * p);
        vstd::arithmetic::div_mod::lemma_div_denominator(v as int, 256, p as int);
    }
}

/// What the relay does with a received frame.
#[derive(Debug, Clone, Copy, PartialEq, Eq, Structural)]
pub enum FrameAction {
    /// Binary, text or continuation: the payload goes to the target.
    Data,
    /// Close: the session ends.
    Close,
    /// Ping: answer with a pong carrying the same payload.
    Pong,
    /// Anything else is ignored.
    Ignore,
}

pub open spec fn spec_frame_action(opcode: u8) -> FrameAction {
    if opcode == 0 || opcode == 1 || opcode == 2 {
        FrameAction::Data
    } else if opcode == 8 {
        FrameAction::Close
    } else if opcode == 9 {
        FrameAction::Pong
    } else {
        FrameAction::Ignore
    }
}

pub fn frame_action(opcode: u8) -> (r: FrameAction)
    ensures
        r == spec_frame_action(opcode),
{
    if opcode == OPCODE_CONTINUATION || opcode == OPCODE_TEXT || opcode == OPCODE_BINARY {
        FrameAction::Data
    } else if opcode == OPCODE_CLOSE {
        FrameAction::Close
    } else if opcode == OPCODE_PING {
        FrameAction::Pong
    } else {
        FrameAction::Ignore
    }
}

} // verus!
