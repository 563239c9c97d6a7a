//! Framing on the publisher transport: every message travels as a four byte
//! big-endian length followed by that many payload bytes.
use vstd::prelude::*;

verus! {

/// The four byte big-endian encoding of `n`.
pub open spec fn length_prefix(n: u32) -> Seq<u8> {
    seq![
        (n / 0x100_0000) as u8,
        ((n / 0x1_0000) % 0x100) as u8,
        ((n / 0x100) % 0x100) as u8,
        (n % 0x100) as u8,
    ]
}

/// The number that four big-endian bytes encode.
pub open spec fn read_length(b: Seq<u8>) -> nat {
    b[0] as nat * 0x100_0000 + b[1] as nat * 0x1_0000 + b[2] as nat * 0x100 + b[3] as nat
}

/// The largest payload a frame may announce.
pub const MAX_FRAME_LEN: usize = 0x100_0000;

/// The bytes of one frame carrying `payload`.
pub open spec fn frame_of(payload: Seq<u8>) -> Seq<u8> {
    length_prefix(payload.len() as u32) + payload
}

/// The result of reading the front of a byte buffer.
#[derive(Debug, PartialEq, Eq)]
pub enum FrameDecode {
    /// The buffer does not yet hold a whole frame.
    Incomplete,
    /// The frame announces a payload longer than `MAX_FRAME_LEN`.
    TooLarge,
    /// A whole frame: its payload, and how many bytes it took.
    Frame { payload: Vec<u8>, consumed: usize },
}

/// Frames `payload`: its length, then its bytes.
pub fn encode_frame(payload: &[u8]) -> (r: Vec<u8>)
    requires
        payload@.len() <= u32::MAX,
    ensures
        r@ == frame_of(payload@),
{
    let n: u32 = payload.len() as u32;
    let mut r: Vec<u8> = Vec::new();
    r.push((n / 0x100_0000) as u8);
    r.push(((n / 0x1_0000) % 0x100) as u8);
    r.push(((n / 0x100) % 0x100) as u8);
    r.push((n % 0x100) as u8);
    let mut i: usize = 0;
    while i < payload.len()
        invariant
            i <= payload@.len(),
            n == payload@.len(),
            r@ == length_prefix(n) + payload@.subrange(0, i as int),
        decreases payload@.len() - i,
    {
        r.push(payload[i]);
        proof {
            assert(payload@.subrange(0, i + 1) =~= payload@.subrange(0, i as int).push(payload@[i as int]));
        }
        i = i + 1;
    }
    proof {
        assert(payload@.subrange(0, i as int) =~= payload@);
    }
    r
}

/// Reads the frame at the front of `buf`, if the buffer holds all of it.
pub fn decode_frame(buf: &[u8]) -> (r: FrameDecode)
    ensures
        buf@.len() < 4 ==> r is Incomplete,
        buf@.len() >= 4 ==> (r is TooLarge <==> read_length(buf@) > MAX_FRAME_LEN),
        buf@.len() >= 4 && read_length(buf@) <= MAX_FRAME_LEN ==> (r is Incomplete <==> buf@.len() < 4
            + read_length(buf@)),
        r matches FrameDecode::Frame { payload, consumed } ==> {
            &&& consumed == 4 + read_length(buf@)
            &&& payload@ == buf@.subrange(4, consumed as int)
        },
{
    if buf.len() < 4 {
        return FrameDecode::Incomplete;
    }
    let n: usize = (buf[0] as usize) * 0x100_0000 + (buf[1] as usize) * 0x1_0000 + (buf[2] as usize) * 0x100
        + buf[3] as usize;
    if n > MAX_FRAME_LEN {
        return FrameDecode::TooLarge;
    }
    if buf.len() - 4 < n {
        return FrameDecode::Incomplete;
    }
    let end: usize = 4 + n;
    let mut payload: Vec<u8> = Vec::new();
    let mut i: usize = 4;
    while i < end
        invariant
            4 <= i <= end,
            end <= buf@.len(),
            payload@ == buf@.subrange(4, i as int),
        decreases end - i,
    {
        payload.push(buf[i]);
        proof {
            assert(buf@.subrange(4, i + 1) =~= buf@.subrange(4, i as int).push(buf@[i as int]));
        }
        i = i + 1;
    }
    FrameDecode::Frame { payload, consumed: end }
}

/// The length a prefix encodes is the number it was made from.
pub proof fn lemma_prefix_round_trip(n: u32)
    ensures
        read_length(length_prefix(n)) == n,
{
    let p = length_prefix(n);
    assert(p[0] as nat == n / 0x100_0000);
    assert(p[1] as nat == (n / 0x1_0000) % 0x100);
    assert(p[2] as nat == (n / 0x100) % 0x100);
    assert(p[3] as nat == n % 0x100);
    let a = n as int;
    assert(a / 0x100_0000 * 0x100_0000 + (a / 0x1_0000) % 0x100 * 0x1_0000 + (a / 0x100) % 0x100 * 0x100 + a % 0x100
        == a) by (nonlinear_arith)
        requires
            0 <= a <= u32::MAX,
    ;
}

/// Reading back a framed payload, with any bytes after it, yields the
/// payload and the frame's exact size.
pub proof fn lemma_frame_round_trip(payload: Seq<u8>, rest: Seq<u8>)
    requires
        payload.len() <= u32::MAX,
    ensures
        ({
            let buf = frame_of(payload) + rest;
            &&& buf.len() >= 4
            &&& read_length(buf) == payload.len()
            &&& buf.len() >= 4 + read_length(buf)
            &&& buf.subrange(4, 4 + payload.len() as int) == payload
        }),
{
    let buf = frame_of(payload) + rest;
    lemma_prefix_round_trip(payload.len() as u32);
    assert(buf.subrange(0, 4) =~= length_prefix(payload.len() as u32));
    assert(buf[0] == length_prefix(payload.len() as u32)[0]);
    assert(buf[1] == length_prefix(payload.len() as u32)[1]);
    assert(buf[2] == length_prefix(payload.len() as u32)[2]);
    assert(buf[3] == length_prefix(payload.len() as u32)[3]);
    assert(buf.subrange(4, 4 + payload.len() as int) =~= payload);
}

} // verus!
