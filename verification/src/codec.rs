//! Wire-format primitives: little-endian integers and the compact length
//! prefix, together with the `Encode` / `DecodeAll` traits that typed
//! payloads implement.
//!
//! Every number is laid out little-endian.  A byte-sequence length is
//! prefixed in a compact form keyed by the two low bits of its first byte:
//! `0` means the length itself fits in the six remaining bits, `1` and `2`
//! mean the length occupies two or four bytes shifted left by two, and `3`
//! marks a four-byte little-endian length following the first byte.

use vstd::prelude::*;

verus! {

/// Longest payload the wire format carries.  Keeps every encoded message
/// length representable in `usize` on any platform and within the range of
/// the compact length prefix.
pub const MAX_PAYLOAD_LEN: usize = 0x3fff_ffff;

/// Little-endian bytes of a 32-bit integer.
pub open spec fn spec_u32_le(x: u32) -> Seq<u8> {
    seq![
        (x & 0xff) as u8,
        ((x >> 8) & 0xff) as u8,
        ((x >> 16) & 0xff) as u8,
        ((x >> 24) & 0xff) as u8,
    ]
}

/// The 32-bit integer read from four little-endian bytes.
pub open spec fn spec_u32_from_le(s: Seq<u8>) -> u32
    recommends
        s.len() == 4,
{
    (s[0] as u32) | ((s[1] as u32) << 8) | ((s[2] as u32) << 16) | ((s[3] as u32) << 24)
}

/// Little-endian bytes of a 64-bit integer.
pub open spec fn spec_u64_le(x: u64) -> Seq<u8> {
    seq![
        (x & 0xff) as u8,
        ((x >> 8) & 0xff) as u8,
        ((x >> 16) & 0xff) as u8,
        ((x >> 24) & 0xff) as u8,
        ((x >> 32) & 0xff) as u8,
        ((x >> 40) & 0xff) as u8,
        ((x >> 48) & 0xff) as u8,
        ((x >> 56) & 0xff) as u8,
    ]
}

/// The 64-bit integer read from eight little-endian bytes.
pub open spec fn spec_u64_from_le(s: Seq<u8>) -> u64
    recommends
        s.len() == 8,
{
    (s[0] as u64) | ((s[1] as u64) << 8) | ((s[2] as u64) << 16) | ((s[3] as u64) << 24)
        | ((s[4] as u64) << 32) | ((s[5] as u64) << 40) | ((s[6] as u64) << 48)
        | ((s[7] as u64) << 56)
}

/// Reading back the little-endian bytes of a 32-bit integer yields the
/// integer.
pub proof fn lemma_u32_le_round_trip(x: u32)
    ensures
        spec_u32_le(x).len() == 4,
        spec_u32_from_le(spec_u32_le(x)) == x,
{
    assert(((x & 0xff) as u8 as u32) | (((x >> 8) & 0xff) as u8 as u32) << 8
        | (((x >> 16) & 0xff) as u8 as u32) << 16 | (((x >> 24) & 0xff) as u8 as u32) << 24
        == x) by (bit_vector);
}

/// Reading back the little-endian bytes of a 64-bit integer yields the
/// integer.
pub proof fn lemma_u64_le_round_trip(x: u64)
    ensures
        spec_u64_le(x).len() == 8,
        spec_u64_from_le(spec_u64_le(x)) == x,
{
    assert(((x & 0xff) as u8 as u64) | (((x >> 8) & 0xff) as u8 as u64) << 8
        | (((x >> 16) & 0xff) as u8 as u64) << 16 | (((x >> 24) & 0xff) as u8 as u64) << 24
        | (((x >> 32) & 0xff) as u8 as u64) << 32 | (((x >> 40) & 0xff) as u8 as u64) << 40
        | (((x >> 48) & 0xff) as u8 as u64) << 48 | (((x >> 56) & 0xff) as u8 as u64) << 56
        == x) by (bit_vector);
}

/// Writes the four little-endian bytes of `x` at the end of `out`.
pub fn append_u32_le(out: &mut Vec<u8>, x: u32)
    ensures
        final(out)@ == old(out)@ + spec_u32_le(x),
{
    out.push((x & 0xff) as u8);
    out.push(((x >> 8) & 0xff) as u8);
    out.push(((x >> 16) & 0xff) as u8);
    out.push(((x >> 24) & 0xff) as u8);
    assert(out@ =~= old(out)@ + spec_u32_le(x));
}

/// Writes the eight little-endian bytes of `x` at the end of `out`.
pub fn append_u64_le(out: &mut Vec<u8>, x: u64)
    ensures
        final(out)@ == old(out)@ + spec_u64_le(x),
{
    out.push((x & 0xff) as u8);
    out.push(((x >> 8) & 0xff) as u8);
    out.push(((x >> 16) & 0xff) as u8);
    out.push(((x >> 24) & 0xff) as u8);
    out.push(((x >> 32) & 0xff) as u8);
    out.push(((x >> 40) & 0xff) as u8);
    out.push(((x >> 48) & 0xff) as u8);
    out.push(((x >> 56) & 0xff) as u8);
    assert(out@ =~= old(out)@ + spec_u64_le(x));
}

/// Reads the 32-bit integer stored little-endian at `s[i .. i + 4]`.
pub fn read_u32_le(s: &[u8], i: usize) -> (r: u32)
    requires
        i + 4 <= s@.len(),
    ensures
        r == spec_u32_from_le(s@.subrange(i as int, i + 4)),
{
    let r = (s[i] as u32) | ((s[i + 1] as u32) << 8) | ((s[i + 2] as u32) << 16)
        | ((s[i + 3] as u32) << 24);
    assert(s@.subrange(i as int, i + 4)[0] == s@[i as int]);
    assert(s@.subrange(i as int, i + 4)[1] == s@[i + 1]);
    assert(s@.subrange(i as int, i + 4)[2] == s@[i + 2]);
    assert(s@.subrange(i as int, i + 4)[3] == s@[i + 3]);
    r
}

/// Reads the 64-bit integer stored little-endian at `s[i .. i + 8]`.
pub fn read_u64_le(s: &[u8], i: usize) -> (r: u64)
    requires
        i + 8 <= s@.len(),
    ensures
        r == spec_u64_from_le(s@.subrange(i as int, i + 8)),
{
    let r = (s[i] as u64) | ((s[i + 1] as u64) << 8) | ((s[i + 2] as u64) << 16)
        | ((s[i + 3] as u64) << 24) | ((s[i + 4] as u64) << 32) | ((s[i + 5] as u64) << 40)
        | ((s[i + 6] as u64) << 48) | ((s[i + 7] as u64) << 56);
    assert(s@.subrange(i as int, i + 8)[0] == s@[i as int]);
    r
}

/// Compact form of a 32-bit length, between one and five bytes long.
pub open spec fn spec_compact_u32(n: u32) -> Seq<u8> {
    if n < 64 {
        seq![(n << 2) as u8]
    } else if n < 16384 {
        seq![(((n << 2) | 1) & 0xff) as u8, ((((n << 2) | 1) >> 8) & 0xff) as u8]
    } else if n < 1073741824 {
        spec_u32_le((n << 2) | 2)
    } else {
        seq![3u8] + spec_u32_le(n)
    }
}

/// Meaning of a compact length prefix at the front of `s`: the length it
/// denotes and how many bytes the prefix occupies.  `None` when `s` is too
/// short or the prefix is not in canonical form.
pub open spec fn spec_decode_compact_u32(s: Seq<u8>) -> Option<(u32, int)> {
    if s.len() < 1 {
        None
    } else {
        let b0 = s[0];
        if b0 & 3 == 0 {
            Some(((b0 >> 2) as u32, 1))
        } else if b0 & 3 == 1 {
            if s.len() < 2 {
                None
            } else {
                let v = (s[0] as u32) | ((s[1] as u32) << 8);
                if v >> 2 >= 64 {
                    Some((v >> 2, 2))
                } else {
                    None
                }
            }
        } else if b0 & 3 == 2 {
            if s.len() < 4 {
                None
            } else {
                let v = spec_u32_from_le(s.subrange(0, 4));
                if v >> 2 >= 16384 {
                    Some((v >> 2, 4))
                } else {
                    None
                }
            }
        } else {
            if b0 != 3 {
                None
            } else if s.len() < 5 {
                None
            } else {
                let v = spec_u32_from_le(s.subrange(1, 5));
                if v >= 1073741824 {
                    Some((v, 5))
                } else {
                    None
                }
            }
        }
    }
}

/// A compact length prefix followed by anything decodes to the length it was
/// built from, consuming exactly the prefix.
pub proof fn lemma_compact_u32_round_trip(n: u32, rest: Seq<u8>)
    ensures
        1 <= spec_compact_u32(n).len() <= 5,
        spec_decode_compact_u32(spec_compact_u32(n) + rest) == Some((
            n,
            spec_compact_u32(n).len() as int,
        )),
{
    let s = spec_compact_u32(n) + rest;
    if n < 64 {
        assert(s[0] == (n << 2) as u8);
        assert(n < 64 ==> ((n << 2) as u8) & 3 == 0 && (((n << 2) as u8) >> 2) as u32 == n)
            by (bit_vector);
    } else if n < 16384 {
        let v = (n << 2) | 1;
        assert(s[0] == (v & 0xff) as u8 && s[1] == ((v >> 8) & 0xff) as u8);
        assert(64 <= n && n < 16384 ==> ((((n << 2) | 1) & 0xff) as u8) & 3 == 1
            && (((((n << 2) | 1) & 0xff) as u8 as u32)
                | (((((n << 2) | 1) >> 8) & 0xff) as u8 as u32) << 8) == ((n << 2) | 1)
            && ((n << 2) | 1) >> 2 == n) by (bit_vector);
    } else if n < 1073741824 {
        let v = (n << 2) | 2;
        assert(s.subrange(0, 4) =~= spec_u32_le(v));
        lemma_u32_le_round_trip(v);
        assert(s[0] == (v & 0xff) as u8);
        assert(16384 <= n && n < 1073741824 ==> ((((n << 2) | 2) & 0xff) as u8) & 3 == 2
            && ((n << 2) | 2) >> 2 == n) by (bit_vector);
    } else {
        assert(s[0] == 3u8);
        assert(3u8 & 3 == 3) by (bit_vector);
        assert(s.subrange(1, 5) =~= spec_u32_le(n));
        lemma_u32_le_round_trip(n);
    }
}

/// Writes the compact form of `n` at the end of `out`.
pub fn append_compact_u32(out: &mut Vec<u8>, n: u32)
    ensures
        final(out)@ == old(out)@ + spec_compact_u32(n),
{
    if n < 64 {
        out.push((n << 2) as u8);
        assert(out@ =~= old(out)@ + spec_compact_u32(n));
    } else if n < 16384 {
        let v: u32 = (n << 2) | 1;
        out.push((v & 0xff) as u8);
        out.push(((v >> 8) & 0xff) as u8);
        assert(out@ =~= old(out)@ + spec_compact_u32(n));
    } else if n < 1073741824 {
        append_u32_le(out, (n << 2) | 2);
    } else {
        out.push(3u8);
        append_u32_le(out, n);
        assert(out@ =~= old(out)@ + spec_compact_u32(n));
    }
}

/// Reads the compact length prefix at `s[i ..]`, returning the length and
/// the position right after the prefix.
pub fn read_compact_u32(s: &[u8], i: usize) -> (r: Option<(u32, usize)>)
    requires
        i <= s@.len(),
    ensures
        match r {
            Some((n, j)) => {
                &&& i < j <= s@.len()
                &&& spec_decode_compact_u32(s@.skip(i as int)) == Some((n, j - i))
            },
            None => spec_decode_compact_u32(s@.skip(i as int)) is None,
        },
{
    let ghost tail = s@.skip(i as int);
    if i >= s.len() {
        return None;
    }
    let b0 = s[i];
    assert(tail[0] == s@[i as int]);
    if b0 & 3 == 0 {
        Some(((b0 >> 2) as u32, i + 1))
    } else if b0 & 3 == 1 {
        if s.len() - i < 2 {
            return None;
        }
        assert(tail[1] == s@[i + 1]);
        let v = (s[i] as u32) | ((s[i + 1] as u32) << 8);
        if v >> 2 >= 64 {
            Some((v >> 2, i + 2))
        } else {
            None
        }
    } else if b0 & 3 == 2 {
        if s.len() - i < 4 {
            return None;
        }
        let v = read_u32_le(s, i);
        assert(s@.subrange(i as int, i + 4) =~= tail.subrange(0, 4));
        if v >> 2 >= 16384 {
            Some((v >> 2, i + 4))
        } else {
            None
        }
    } else {
        if b0 != 3 {
            return None;
        }
        if s.len() - i < 5 {
            return None;
        }
        let v = read_u32_le(s, i + 1);
        assert(s@.subrange(i + 1, i + 5) =~= tail.subrange(1, 5));
        if v >= 1073741824 {
            Some((v, i + 5))
        } else {
            None
        }
    }
}

/// Four little-endian bytes are exactly the encoding of the integer read
/// from them.
pub proof fn lemma_u32_le_complete(s: Seq<u8>)
    requires
        s.len() == 4,
    ensures
        spec_u32_le(spec_u32_from_le(s)) == s,
{
    let a = s[0];
    let b = s[1];
    let c = s[2];
    let d = s[3];
    let v = spec_u32_from_le(s);
    assert({
        let w = (a as u32) | ((b as u32) << 8) | ((c as u32) << 16) | ((d as u32) << 24);
        ((w & 0xff) as u8) == a && (((w >> 8) & 0xff) as u8) == b && (((w >> 16) & 0xff) as u8)
            == c && (((w >> 24) & 0xff) as u8) == d
    }) by (bit_vector);
    assert(spec_u32_le(v) =~= s);
}

/// Eight little-endian bytes are exactly the encoding of the integer read
/// from them.
pub proof fn lemma_u64_le_complete(s: Seq<u8>)
    requires
        s.len() == 8,
    ensures
        spec_u64_le(spec_u64_from_le(s)) == s,
{
    let b0 = s[0];
    let b1 = s[1];
    let b2 = s[2];
    let b3 = s[3];
    let b4 = s[4];
    let b5 = s[5];
    let b6 = s[6];
    let b7 = s[7];
    let v = spec_u64_from_le(s);
    assert({
        let w = (b0 as u64) | ((b1 as u64) << 8) | ((b2 as u64) << 16) | ((b3 as u64) << 24) | (
        (b4 as u64) << 32) | ((b5 as u64) << 40) | ((b6 as u64) << 48) | ((b7 as u64) << 56);
        ((w & 0xff) as u8) == b0 && (((w >> 8) & 0xff) as u8) == b1 && (((w >> 16) & 0xff) as u8)
            == b2 && (((w >> 24) & 0xff) as u8) == b3 && (((w >> 32) & 0xff) as u8) == b4 && (((w
            >> 40) & 0xff) as u8) == b5 && (((w >> 48) & 0xff) as u8) == b6 && (((w >> 56)
            & 0xff) as u8) == b7
    }) by (bit_vector);
    assert(spec_u64_le(v) =~= s);
}

/// A byte sequence a compact prefix was read from starts with exactly the
/// compact form of the length that was read.
pub proof fn lemma_compact_u32_sound(s: Seq<u8>, n: u32, k: int)
    requires
        spec_decode_compact_u32(s) == Some((n, k)),
    ensures
        1 <= k <= 5,
        k <= s.len(),
        s.subrange(0, k) == spec_compact_u32(n),
{
    let b0 = s[0];
    if b0 & 3 == 0 {
        assert(b0 & 3 == 0 ==> ((((b0 >> 2) as u32) << 2) as u8) == b0) by (bit_vector);
        assert(((b0 >> 2) as u32) < 64) by (bit_vector);
        assert(s.subrange(0, 1) =~= spec_compact_u32(n));
    } else if b0 & 3 == 1 {
        let b1 = s[1];
        let v = (b0 as u32) | ((b1 as u32) << 8);
        assert({
            let w = (b0 as u32) | ((b1 as u32) << 8);
            b0 & 3 == 1 ==> w >> 2 < 16384 && (((w >> 2) << 2) | 1) == w && (((((w >> 2) << 2)
                | 1) & 0xff) as u8) == b0 && ((((((w >> 2) << 2) | 1) >> 8) & 0xff) as u8) == b1
        }) by (bit_vector);
        assert(s.subrange(0, 2) =~= spec_compact_u32(n));
    } else if b0 & 3 == 2 {
        let t = s.subrange(0, 4);
        let a = t[0];
        let b = t[1];
        let c = t[2];
        let d = t[3];
        let v = spec_u32_from_le(t);
        lemma_u32_le_complete(t);
        assert(a == b0);
        assert({
            let w = (a as u32) | ((b as u32) << 8) | ((c as u32) << 16) | ((d as u32) << 24);
            (w & 0xff) as u8 == a
        }) by (bit_vector);
        assert((v & 0xff) as u8 == b0);
        assert(b0 & 3 == 2 && (v & 0xff) as u8 == b0 && v >> 2 >= 16384 ==> v >> 2 < 1073741824
            && (((v >> 2) << 2) | 2) == v) by (bit_vector);
        assert(spec_compact_u32(n) == spec_u32_le(v));
        assert(s.subrange(0, 4) =~= spec_compact_u32(n));
    } else {
        let v = spec_u32_from_le(s.subrange(1, 5));
        lemma_u32_le_complete(s.subrange(1, 5));
        assert(s.subrange(0, 5) =~= seq![3u8] + spec_u32_le(v));
    }
}

/// Writes a copy of `s` at the end of `out`.
pub fn append_bytes(out: &mut Vec<u8>, s: &[u8])
    ensures
        final(out)@ == old(out)@ + s@,
{
    let mut i: usize = 0;
    while i < s.len()
        invariant
            i <= s@.len(),
            out@ == old(out)@ + s@.subrange(0, i as int),
        decreases s@.len() - i,
    {
        out.push(s[i]);
        i = i + 1;
        assert(out@ =~= old(out)@ + s@.subrange(0, i as int));
    }
    assert(out@ =~= old(out)@ + s@);
}

/// A typed payload that can be written to wire bytes.
pub trait Encode {
    /// The wire bytes of the value.
    spec fn encoding(&self) -> Seq<u8>;

    /// Encodes the value to its wire bytes.
    fn encode(&self) -> (r: Vec<u8>)
        ensures
            r@ == self.encoding(),
    ;
}

/// A typed payload that can be read back from wire bytes, consuming all of
/// them.
pub trait DecodeAll: Sized {
    /// The value denoted by `bytes`, if they are a whole, well-formed
    /// encoding of one.
    spec fn spec_decoded(bytes: Seq<u8>) -> Option<Self>;

    /// Decodes a value from `bytes`, requiring every byte to be used.
    fn decode_all(bytes: &[u8]) -> (r: Option<Self>)
        ensures
            r == Self::spec_decoded(bytes@),
    ;
}

impl Encode for u32 {
    open spec fn encoding(&self) -> Seq<u8> {
        spec_u32_le(*self)
    }

    fn encode(&self) -> (r: Vec<u8>) {
        let mut r: Vec<u8> = Vec::new();
        append_u32_le(&mut r, *self);
        r
    }
}

impl DecodeAll for u32 {
    open spec fn spec_decoded(bytes: Seq<u8>) -> Option<u32> {
        if bytes.len() == 4 {
            Some(spec_u32_from_le(bytes))
        } else {
            None
        }
    }

    fn decode_all(bytes: &[u8]) -> (r: Option<u32>) {
        if bytes.len() == 4 {
            assert(bytes@.subrange(0, 4) =~= bytes@);
            Some(read_u32_le(bytes, 0))
        } else {
            None
        }
    }
}

impl Encode for u64 {
    open spec fn encoding(&self) -> Seq<u8> {
        spec_u64_le(*self)
    }

    fn encode(&self) -> (r: Vec<u8>) {
        let mut r: Vec<u8> = Vec::new();
        append_u64_le(&mut r, *self);
        r
    }
}

impl DecodeAll for u64 {
    open spec fn spec_decoded(bytes: Seq<u8>) -> Option<u64> {
        if bytes.len() == 8 {
            Some(spec_u64_from_le(bytes))
        } else {
            None
        }
    }

    fn decode_all(bytes: &[u8]) -> (r: Option<u64>) {
        if bytes.len() == 8 {
            assert(bytes@.subrange(0, 8) =~= bytes@);
            Some(read_u64_le(bytes, 0))
        } else {
            None
        }
    }
}

/// Decoding the encoding of a 32-bit value gives the value back.
pub proof fn lemma_u32_decode_encode(x: u32)
    ensures
        <u32 as DecodeAll>::spec_decoded(x.encoding()) == Some(x),
{
    lemma_u32_le_round_trip(x);
}

/// Decoding the encoding of a 64-bit value gives the value back.
pub proof fn lemma_u64_decode_encode(x: u64)
    ensures
        <u64 as DecodeAll>::spec_decoded(x.encoding()) == Some(x),
{
    lemma_u64_le_round_trip(x);
}

} // verus!
