//! Length-prefixed framing of byte payloads.
//!
//! Two wire formats are used by the tunnel:
//! - a 32-bit big-endian length header followed by the payload (messages
//!   between the two ends of a session);
//! - a 16-bit big-endian length header followed by the payload (the small
//!   control protocol).
//!
//! The sender writes the length truncated to the header's width, as the
//! integer casts of the wire code do, so a payload only reads back whole when
//! its length fits in the header.

use vstd::prelude::*;

verus! {

/// Number of bytes in the 32-bit length header.
pub const LEN_HEADER: usize = 4;

/// Number of bytes in the 16-bit length header.
pub const LEN_HEADER16: usize = 2;

/// The four big-endian bytes of `v`.
pub open spec fn be32_bytes(v: u32) -> Seq<u8> {
    seq![(v >> 24u32) as u8, (v >> 16u32) as u8, (v >> 8u32) as u8, v as u8]
}

/// The big-endian value of the first four bytes of `b`.
pub open spec fn be32_value(b: Seq<u8>) -> u32
    recommends
        b.len() >= 4,
{
    (b[0] as u32) << 24u32 | (b[1] as u32) << 16u32 | (b[2] as u32) << 8u32 | (b[3] as u32)
}

/// The two big-endian bytes of `v`.
pub open spec fn be16_bytes(v: u16) -> Seq<u8> {
    seq![(v >> 8u16) as u8, v as u8]
}

/// The big-endian value of the first two bytes of `b`.
pub open spec fn be16_value(b: Seq<u8>) -> u16
    recommends
        b.len() >= 2,
{
    (b[0] as u16) << 8u16 | (b[1] as u16)
}

/// The bytes sent for `payload` with a 32-bit header: the payload's length
/// truncated to 32 bits, big-endian, then the payload itself.
pub open spec fn spec_frame32(payload: Seq<u8>) -> Seq<u8> {
    be32_bytes(payload.len() as u32) + payload
}

/// The bytes sent for `payload` with a 16-bit header: the payload's length
/// truncated to 16 bits, big-endian, then the payload itself.
pub open spec fn spec_frame16(payload: Seq<u8>) -> Seq<u8> {
    be16_bytes(payload.len() as u16) + payload
}

/// What a reader takes from the front of `buf` under the 32-bit format: the
/// payload and the number of bytes consumed, or `None` while `buf` does not yet
/// hold a whole frame.
pub open spec fn spec_parse32(buf: Seq<u8>) -> Option<(Seq<u8>, int)> {
    if buf.len() < 4 {
        None
    } else {
        let n = be32_value(buf) as int;
        if buf.len() < 4 + n {
            None
        } else {
            Some((buf.subrange(4, 4 + n), 4 + n))
        }
    }
}

/// What a reader takes from the front of `buf` under the 16-bit format.
pub open spec fn spec_parse16(buf: Seq<u8>) -> Option<(Seq<u8>, int)> {
    if buf.len() < 2 {
        None
    } else {
        let n = be16_value(buf) as int;
        if buf.len() < 2 + n {
            None
        } else {
            Some((buf.subrange(2, 2 + n), 2 + n))
        }
    }
}

/// The big-endian value is the weighted sum of the four bytes.
pub proof fn lemma_be32_value_sum(b: Seq<u8>)
    requires
        b.len() >= 4,
    ensures
        be32_value(b) as int == b[0] * 0x1000000 + b[1] * 0x10000 + b[2] * 0x100 + b[3],
{
    let (b0, b1, b2, b3) = (b[0], b[1], b[2], b[3]);
    assert(((b0 as u32) << 24u32 | (b1 as u32) << 16u32 | (b2 as u32) << 8u32 | (b3 as u32)) as int
        == b0 * 0x1000000 + b1 * 0x10000 + b2 * 0x100 + b3) by (bit_vector);
}

/// The 16-bit big-endian value is the weighted sum of the two bytes.
pub proof fn lemma_be16_value_sum(b: Seq<u8>)
    requires
        b.len() >= 2,
    ensures
        be16_value(b) as int == b[0] * 0x100 + b[1],
{
    let (b0, b1) = (b[0], b[1]);
    assert(((b0 as u16) << 8u16 | (b1 as u16)) as int == b0 * 0x100 + b1) by (bit_vector);
}

/// The header bytes written for `v` are the base-256 digits of `v`, most
/// significant first.
pub proof fn lemma_be32_bytes_sum(v: u32)
    ensures
        be32_bytes(v).len() == 4,
        be32_bytes(v)[0] * 0x1000000 + be32_bytes(v)[1] * 0x10000 + be32_bytes(v)[2] * 0x100
            + be32_bytes(v)[3] == v as int,
{
    let h = be32_bytes(v);
    assert(h[0] == (v >> 24u32) as u8 && h[1] == (v >> 16u32) as u8 && h[2] == (v >> 8u32) as u8
        && h[3] == v as u8);
    assert(((v >> 24u32) as u8) * 0x1000000 + ((v >> 16u32) as u8) * 0x10000 + ((v >> 8u32) as u8)
        * 0x100 + (v as u8) == v) by (bit_vector);
}

/// The 16-bit header bytes written for `v` are the base-256 digits of `v`,
/// most significant first.
pub proof fn lemma_be16_bytes_sum(v: u16)
    ensures
        be16_bytes(v).len() == 2,
        be16_bytes(v)[0] * 0x100 + be16_bytes(v)[1] == v as int,
{
    let h = be16_bytes(v);
    assert(h[0] == (v >> 8u16) as u8 && h[1] == v as u8);
    assert(((v >> 8u16) as u8) * 0x100 + (v as u8) == v) by (bit_vector);
}

/// Reading back the header written for `v` gives `v`.
pub proof fn lemma_be32_value_of_bytes(v: u32)
    ensures
        be32_value(be32_bytes(v)) == v,
{
    assert(((((v >> 24u32) as u8) as u32) << 24u32 | (((v >> 16u32) as u8) as u32) << 16u32 | (((v
        >> 8u32) as u8) as u32) << 8u32 | ((v as u8) as u32)) == v) by (bit_vector);
}

/// Writing the value read from a header gives the header's bytes back.
pub proof fn lemma_be32_bytes_of_value(b: Seq<u8>)
    requires
        b.len() == 4,
    ensures
        be32_bytes(be32_value(b)) == b,
{
    let (b0, b1, b2, b3) = (b[0], b[1], b[2], b[3]);
    let v = be32_value(b);
    assert(v == ((b0 as u32) << 24u32 | (b1 as u32) << 16u32 | (b2 as u32) << 8u32 | (b3 as u32)));
    assert(((v >> 24u32) as u8) == b0 && ((v >> 16u32) as u8) == b1 && ((v >> 8u32) as u8) == b2
        && (v as u8) == b3) by (bit_vector)
        requires
            v == ((b0 as u32) << 24u32 | (b1 as u32) << 16u32 | (b2 as u32) << 8u32 | (b3 as u32)),
    ;
    assert(be32_bytes(v) =~= b);
}

/// Reading back the 16-bit header written for `v` gives `v`.
pub proof fn lemma_be16_value_of_bytes(v: u16)
    ensures
        be16_value(be16_bytes(v)) == v,
{
    assert(((((v >> 8u16) as u8) as u16) << 8u16 | ((v as u8) as u16)) == v) by (bit_vector);
}

/// Writing the value read from a 16-bit header gives the header's bytes back.
pub proof fn lemma_be16_bytes_of_value(b: Seq<u8>)
    requires
        b.len() == 2,
    ensures
        be16_bytes(be16_value(b)) == b,
{
    let (b0, b1) = (b[0], b[1]);
    let v = be16_value(b);
    assert(v == ((b0 as u16) << 8u16 | (b1 as u16)));
    assert(((v >> 8u16) as u8) == b0 && (v as u8) == b1) by (bit_vector)
        requires
            v == ((b0 as u16) << 8u16 | (b1 as u16)),
    ;
    assert(be16_bytes(v) =~= b);
}

/// Reads the payload length from a 32-bit big-endian header.
pub fn get_len(header: &[u8]) -> (len: usize)
    requires
        header@.len() >= LEN_HEADER,
    ensures
        len == be32_value(header@),
        len == header@[0] * 0x1000000 + header@[1] * 0x10000 + header@[2] * 0x100 + header@[3],
{
    proof {
        lemma_be32_value_sum(header@);
    }
    let v: u32 = (header[0] as u32) << 24u32 | (header[1] as u32) << 16u32 | (header[2] as u32)
        << 8u32 | (header[3] as u32);
    v as usize
}

/// Reads the payload length from a 16-bit big-endian header.
pub fn get_len16(header: &[u8]) -> (len: usize)
    requires
        header@.len() >= LEN_HEADER16,
    ensures
        len == be16_value(header@),
        len == header@[0] * 0x100 + header@[1],
{
    proof {
        lemma_be16_value_sum(header@);
    }
    let v: u16 = (header[0] as u16) << 8u16 | (header[1] as u16);
    v as usize
}

/// The 32-bit header announcing a payload of `len` bytes: `len` truncated to
/// 32 bits, big-endian.
pub fn header32(len: usize) -> (header: [u8; 4])
    ensures
        header@ == be32_bytes(len as u32),
        header@[0] * 0x1000000 + header@[1] * 0x10000 + header@[2] * 0x100 + header@[3] == (len
            as u32) as int,
{
    proof {
        lemma_be32_bytes_sum(len as u32);
    }
    let v = len as u32;
    let header = [(v >> 24u32) as u8, (v >> 16u32) as u8, (v >> 8u32) as u8, v as u8];
    assert(header@ =~= be32_bytes(v));
    header
}

/// The 16-bit header announcing a payload of `len` bytes: `len` truncated to
/// 16 bits, big-endian.
pub fn header16(len: usize) -> (header: [u8; 2])
    ensures
        header@ == be16_bytes(len as u16),
        header@[0] * 0x100 + header@[1] == (len as u16) as int,
{
    proof {
        lemma_be16_bytes_sum(len as u16);
    }
    let v = len as u16;
    let header = [(v >> 8u16) as u8, v as u8];
    assert(header@ =~= be16_bytes(v));
    header
}

/// Appends the bytes of `src` to `out`.
fn append_bytes(out: &mut Vec<u8>, src: &[u8])
    ensures
        final(out)@ == old(out)@ + src@,
{
    let n = src.len();
    let ghost start = out@;
    for i in 0..n
        invariant
            n == src@.len(),
            out@ == start + src@.take(i as int),
    {
        out.push(src[i]);
        assert(src@.take(i + 1) =~= src@.take(i as int).push(src@[i as int]));
    }
    assert(src@.take(n as int) =~= src@);
}

/// The bytes to send for `payload` under the 32-bit format.
pub fn frame32(payload: &[u8]) -> (out: Vec<u8>)
    ensures
        out@ == spec_frame32(payload@),
        out@.len() == payload@.len() + 4,
        out@.skip(4) == payload@,
        out@[0] * 0x1000000 + out@[1] * 0x10000 + out@[2] * 0x100 + out@[3] == (payload@.len()
            as u32) as int,
{
    proof {
        law_frame32_layout(payload@);
    }
    let header = header32(payload.len());
    let mut out: Vec<u8> = Vec::new();
    append_bytes(&mut out, &header);
    append_bytes(&mut out, payload);
    assert(out@ =~= spec_frame32(payload@));
    out
}

/// The bytes to send for `payload` under the 16-bit format.
pub fn frame16(payload: &[u8]) -> (out: Vec<u8>)
    ensures
        out@ == spec_frame16(payload@),
        out@.len() == payload@.len() + 2,
        out@.skip(2) == payload@,
        out@[0] * 0x100 + out@[1] == (payload@.len() as u16) as int,
{
    proof {
        law_frame16_layout(payload@);
    }
    let header = header16(payload.len());
    let mut out: Vec<u8> = Vec::new();
    append_bytes(&mut out, &header);
    append_bytes(&mut out, payload);
    assert(out@ =~= spec_frame16(payload@));
    out
}

/// Takes one 32-bit-format frame from the front of `buf`: the payload and the
/// number of bytes it occupied, or `None` while `buf` holds no whole frame.
pub fn parse32(buf: &[u8]) -> (res: Option<(Vec<u8>, usize)>)
    ensures
        match res {
            Some((payload, used)) => spec_parse32(buf@) == Some((payload@, used as int)),
            None => spec_parse32(buf@) is None,
        },
        buf@.len() < 4 ==> res is None,
        buf@.len() >= 4 ==> ({
            let n = buf@[0] * 0x1000000 + buf@[1] * 0x10000 + buf@[2] * 0x100 + buf@[3];
            if buf@.len() >= 4 + n {
                res matches Some((p, used)) && p@ == buf@.subrange(4, 4 + n) && used == 4 + n
            } else {
                res is None
            }
        }),
{
    proof {
        law_parse32_reads_length(buf@);
    }
    if buf.len() < LEN_HEADER {
        return None;
    }
    let n = get_len(buf);
    if buf.len() - LEN_HEADER < n {
        return None;
    }
    let body = vstd::slice::slice_subrange(buf, LEN_HEADER, LEN_HEADER + n);
    let payload = vstd::slice::slice_to_vec(body);
    Some((payload, LEN_HEADER + n))
}

/// Takes one 16-bit-format frame from the front of `buf`: the payload and the
/// number of bytes it occupied, or `None` while `buf` holds no whole frame.
pub fn parse16(buf: &[u8]) -> (res: Option<(Vec<u8>, usize)>)
    ensures
        match res {
            Some((payload, used)) => spec_parse16(buf@) == Some((payload@, used as int)),
            None => spec_parse16(buf@) is None,
        },
        buf@.len() < 2 ==> res is None,
        buf@.len() >= 2 ==> ({
            let n = buf@[0] * 0x100 + buf@[1];
            if buf@.len() >= 2 + n {
                res matches Some((p, used)) && p@ == buf@.subrange(2, 2 + n) && used == 2 + n
            } else {
                res is None
            }
        }),
{
    proof {
        law_parse16_reads_length(buf@);
    }
    if buf.len() < LEN_HEADER16 {
        return None;
    }
    let n = get_len16(buf);
    if buf.len() - LEN_HEADER16 < n {
        return None;
    }
    let body = vstd::slice::slice_subrange(buf, LEN_HEADER16, LEN_HEADER16 + n);
    let payload = vstd::slice::slice_to_vec(body);
    Some((payload, LEN_HEADER16 + n))
}

/// The frame of a payload is four header bytes followed by the payload
/// unchanged, and the header bytes are the payload's length (truncated to 32
/// bits) in base 256, most significant byte first.
pub proof fn law_frame32_layout(payload: Seq<u8>)
    ensures
        spec_frame32(payload).len() == payload.len() + 4,
        spec_frame32(payload).skip(4) == payload,
        spec_frame32(payload)[0] * 0x1000000 + spec_frame32(payload)[1] * 0x10000
            + spec_frame32(payload)[2] * 0x100 + spec_frame32(payload)[3] == (payload.len() as u32)
            as int,
{
    let f = spec_frame32(payload);
    let v = payload.len() as u32;
    lemma_be32_bytes_sum(v);
    assert(f[0] == be32_bytes(v)[0] && f[1] == be32_bytes(v)[1] && f[2] == be32_bytes(v)[2] && f[3]
        == be32_bytes(v)[3]);
    assert(f.skip(4) =~= payload);
}

/// The frame of a payload is two header bytes followed by the payload
/// unchanged, and the header bytes are the payload's length (truncated to 16
/// bits) in base 256, most significant byte first.
pub proof fn law_frame16_layout(payload: Seq<u8>)
    ensures
        spec_frame16(payload).len() == payload.len() + 2,
        spec_frame16(payload).skip(2) == payload,
        spec_frame16(payload)[0] * 0x100 + spec_frame16(payload)[1] == (payload.len() as u16) as int,
{
    let f = spec_frame16(payload);
    let v = payload.len() as u16;
    lemma_be16_bytes_sum(v);
    assert(f[0] == be16_bytes(v)[0] && f[1] == be16_bytes(v)[1]);
    assert(f.skip(2) =~= payload);
}

/// A reader takes the length `n` from the first four bytes read as a base-256
/// number, most significant byte first; it gives the `n` bytes after the
/// header and `4 + n` consumed bytes once they are all there, and nothing
/// before.
pub proof fn law_parse32_reads_length(buf: Seq<u8>)
    ensures
        buf.len() < 4 ==> spec_parse32(buf) is None,
        buf.len() >= 4 ==> ({
            let n = buf[0] * 0x1000000 + buf[1] * 0x10000 + buf[2] * 0x100 + buf[3];
            if buf.len() >= 4 + n {
                spec_parse32(buf) == Some((buf.subrange(4, 4 + n), 4 + n))
            } else {
                spec_parse32(buf) is None
            }
        }),
{
    if buf.len() >= 4 {
        lemma_be32_value_sum(buf);
    }
}

/// A reader of the 16-bit format takes the length `n` from the first two bytes
/// read as a base-256 number, most significant byte first; it gives the `n`
/// bytes after the header and `2 + n` consumed bytes once they are all there,
/// and nothing before.
pub proof fn law_parse16_reads_length(buf: Seq<u8>)
    ensures
        buf.len() < 2 ==> spec_parse16(buf) is None,
        buf.len() >= 2 ==> ({
            let n = buf[0] * 0x100 + buf[1];
            if buf.len() >= 2 + n {
                spec_parse16(buf) == Some((buf.subrange(2, 2 + n), 2 + n))
            } else {
                spec_parse16(buf) is None
            }
        }),
{
    if buf.len() >= 2 {
        lemma_be16_value_sum(buf);
    }
}

/// A reader gets back exactly the payload that was framed, whatever follows
/// the frame, as long as the payload's length fits in 32 bits.
pub proof fn law_frame32_roundtrip(payload: Seq<u8>, rest: Seq<u8>)
    requires
        payload.len() <= u32::MAX,
    ensures
        spec_parse32(spec_frame32(payload) + rest) == Some((payload, payload.len() + 4int)),
{
    let buf = spec_frame32(payload) + rest;
    let h = be32_bytes(payload.len() as u32);
    lemma_be32_value_of_bytes(payload.len() as u32);
    assert(buf[0] == h[0] && buf[1] == h[1] && buf[2] == h[2] && buf[3] == h[3]);
    assert(be32_value(buf) == be32_value(h));
    assert(buf.subrange(4, 4 + payload.len() as int) =~= payload);
}

/// A reader gets back exactly the payload that was framed with a 16-bit header,
/// whatever follows the frame, as long as the payload's length fits in 16 bits.
pub proof fn law_frame16_roundtrip(payload: Seq<u8>, rest: Seq<u8>)
    requires
        payload.len() <= u16::MAX,
    ensures
        spec_parse16(spec_frame16(payload) + rest) == Some((payload, payload.len() + 2int)),
{
    let buf = spec_frame16(payload) + rest;
    let h = be16_bytes(payload.len() as u16);
    lemma_be16_value_of_bytes(payload.len() as u16);
    assert(buf[0] == h[0] && buf[1] == h[1]);
    assert(be16_value(buf) == be16_value(h));
    assert(buf.subrange(2, 2 + payload.len() as int) =~= payload);
}

/// The bytes a reader consumes for a frame are exactly the frame a writer
/// produces for the payload read.
pub proof fn law_parse32_consumes_frame(buf: Seq<u8>)
    ensures
        spec_parse32(buf) matches Some((payload, used)) ==> buf.take(used) == spec_frame32(payload),
{
    if let Some((payload, used)) = spec_parse32(buf) {
        let v = be32_value(buf);
        assert(be32_value(buf.take(4)) == v);
        lemma_be32_bytes_of_value(buf.take(4));
        assert(payload.len() == v);
        assert((payload.len() as u32) == v);
        assert(buf.take(used) =~= buf.take(4) + payload);
    }
}

/// The bytes a reader consumes for a 16-bit frame are exactly the frame a
/// writer produces for the payload read.
pub proof fn law_parse16_consumes_frame(buf: Seq<u8>)
    ensures
        spec_parse16(buf) matches Some((payload, used)) ==> buf.take(used) == spec_frame16(payload),
{
    if let Some((payload, used)) = spec_parse16(buf) {
        let v = be16_value(buf);
        assert(be16_value(buf.take(2)) == v);
        lemma_be16_bytes_of_value(buf.take(2));
        assert(payload.len() == v);
        assert((payload.len() as u16) == v);
        assert(buf.take(used) =~= buf.take(2) + payload);
    }
}

/// Once a whole frame is at the front of the buffer, bytes arriving after it
/// do not change what is read.
pub proof fn law_parse32_ignores_later_bytes(buf: Seq<u8>, more: Seq<u8>)
    ensures
        spec_parse32(buf) is Some ==> spec_parse32(buf + more) == spec_parse32(buf),
{
    if spec_parse32(buf) is Some {
        let all = buf + more;
        assert(all[0] == buf[0] && all[1] == buf[1] && all[2] == buf[2] && all[3] == buf[3]);
        let n = be32_value(buf) as int;
        assert(all.subrange(4, 4 + n) =~= buf.subrange(4, 4 + n));
    }
}

/// Once a whole 16-bit frame is at the front of the buffer, bytes arriving
/// after it do not change what is read.
pub proof fn law_parse16_ignores_later_bytes(buf: Seq<u8>, more: Seq<u8>)
    ensures
        spec_parse16(buf) is Some ==> spec_parse16(buf + more) == spec_parse16(buf),
{
    if spec_parse16(buf) is Some {
        let all = buf + more;
        assert(all[0] == buf[0] && all[1] == buf[1]);
        let n = be16_value(buf) as int;
        assert(all.subrange(2, 2 + n) =~= buf.subrange(2, 2 + n));
    }
}

/// Frames written one after the other are read back one after the other.
pub proof fn law_frames32_in_sequence(first: Seq<u8>, second: Seq<u8>)
    requires
        first.len() <= u32::MAX,
        second.len() <= u32::MAX,
    ensures
        ({
            let stream = spec_frame32(first) + spec_frame32(second);
            let used = first.len() + 4int;
            &&& spec_parse32(stream) == Some((first, used))
            &&& spec_parse32(stream.skip(used)) == Some((second, second.len() + 4int))
        }),
{
    let f1 = spec_frame32(first);
    let f2 = spec_frame32(second);
    law_frame32_roundtrip(first, f2);
    law_frame32_roundtrip(second, Seq::<u8>::empty());
    lemma_skip_concat(f1, f2);
    assert(f1.len() == first.len() + 4);
    assert(f2 + Seq::<u8>::empty() =~= f2);
}

/// Skipping the first part of a concatenation leaves the second part.
proof fn lemma_skip_concat(a: Seq<u8>, b: Seq<u8>)
    ensures
        (a + b).skip(a.len() as int) == b,
{
    assert((a + b).skip(a.len() as int) =~= b);
}

/// The header a writer puts in front of a payload reads back as the payload's
/// length, for every length that fits in 32 bits.
pub proof fn law_header32_get_len(len: usize)
    requires
        len <= u32::MAX,
    ensures
        be32_value(be32_bytes(len as u32)) == len,
{
    lemma_be32_value_of_bytes(len as u32);
}

} // verus!
