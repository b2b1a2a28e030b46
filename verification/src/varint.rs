//! The protocol's variable-length integer encoding: a signed 32-bit value is
//! carried as its unsigned bit pattern, seven bits per byte, least-significant
//! group first, with the high bit of each byte signalling continuation.

use vstd::prelude::*;
use crate::SlpError;

verus! {

// --- The i32 <-> u32 bit-pattern correspondence ---
//
// Encoding works on the 32-bit pattern of the value, never on its sign:
// shifting must move bits toward zero, so a negative value is first read as
// the unsigned integer with the same two's-complement bits.

/// The unsigned integer with the same 32-bit pattern as `v`.
pub open spec fn u32_bits_of_i32(v: i32) -> u32 {
    if v >= 0 {
        v as u32
    } else {
        (v + 0x1_0000_0000) as u32
    }
}

/// The signed integer with the same 32-bit pattern as `u`.
pub open spec fn i32_of_u32_bits(u: u32) -> i32 {
    if u < 0x8000_0000 {
        u as i32
    } else {
        (u - 0x1_0000_0000) as i32
    }
}

pub proof fn lemma_bit_pattern_round_trip(v: i32)
    ensures
        i32_of_u32_bits(u32_bits_of_i32(v)) == v,
{
}

pub proof fn lemma_bit_pattern_round_trip_u32(u: u32)
    ensures
        u32_bits_of_i32(i32_of_u32_bits(u)) == u,
{
}

fn to_bits(v: i32) -> (r: u32)
    ensures
        r == u32_bits_of_i32(v),
{
    if v >= 0 {
        v as u32
    } else {
        ((v as i64) + 0x1_0000_0000i64) as u32
    }
}

fn from_bits(u: u32) -> (r: i32)
    ensures
        r == i32_of_u32_bits(u),
{
    if u < 0x8000_0000 {
        u as i32
    } else {
        ((u as i64) - 0x1_0000_0000i64) as i32
    }
}

// --- The encoding, as a function on bit patterns ---

/// The byte sequence that carries `v`: the low seven bits with the
/// continuation bit set, followed by the encoding of the remaining bits;
/// a value under 128 is a single bare byte, so zero encodes as `0x00` alone.
pub open spec fn varint_encoding(v: u32) -> Seq<u8>
    decreases v,
{
    if v < 0x80 {
        seq![v as u8]
    } else {
        seq![(v % 0x80 + 0x80) as u8] + varint_encoding(v / 0x80)
    }
}

/// How many bytes the encoding of `v` takes: one per started 7-bit group.
pub open spec fn varint_len(v: u32) -> int {
    if v < 0x80 {
        1
    } else if v < 0x4000 {
        2
    } else if v < 0x20_0000 {
        3
    } else if v < 0x1000_0000 {
        4
    } else {
        5
    }
}

pub proof fn lemma_varint_encoding_len(v: u32)
    ensures
        varint_encoding(v).len() == varint_len(v),
        1 <= varint_encoding(v).len() <= 5,
    decreases v,
{
    if v >= 0x80 {
        lemma_varint_encoding_len(v / 0x80);
    }
}

// --- The decoding ---
//
// `depth` counts the bytes already consumed of the at most five that a 32-bit
// value may span. The fifth byte may carry only the top four bits and no
// continuation bit: anything else cannot come from a 32-bit value.

/// Decodes a varint from the front of `s`, `depth` bytes into the group.
/// Yields the value and the number of bytes consumed, or the error:
/// `TruncatedStream` when `s` ends before a terminating byte,
/// `MalformedVarint` when a fifth byte asks for bits beyond the 32-bit domain.
pub open spec fn varint_decode_at(s: Seq<u8>, depth: int) -> Result<(int, int), SlpError>
    decreases 5 - depth,
{
    if s.len() == 0 {
        Err(SlpError::TruncatedStream)
    } else if depth >= 4 {
        if s[0] >= 0x10 {
            Err(SlpError::MalformedVarint)
        } else {
            Ok((s[0] as int, 1))
        }
    } else if s[0] < 0x80 {
        Ok((s[0] as int, 1))
    } else {
        match varint_decode_at(s.skip(1), depth + 1) {
            Ok((v, n)) => Ok(((s[0] - 0x80) + 0x80 * v, n + 1)),
            Err(e) => Err(e),
        }
    }
}

/// Decodes a varint from the front of `s`.
pub open spec fn varint_decoding(s: Seq<u8>) -> Result<(int, int), SlpError> {
    varint_decode_at(s, 0)
}

/// The largest value (exclusive) that a decode starting `depth` bytes in can
/// still yield: sixteen times a power of 128, down to 2^32 at the start.
pub open spec fn varint_value_bound(depth: int) -> int {
    if depth >= 4 {
        0x10
    } else if depth == 3 {
        0x800
    } else if depth == 2 {
        0x4_0000
    } else if depth == 1 {
        0x200_0000
    } else {
        0x1_0000_0000
    }
}

pub proof fn lemma_varint_decode_bound(s: Seq<u8>, depth: int)
    requires
        0 <= depth <= 4,
    ensures
        varint_decode_at(s, depth) matches Ok((v, n)) ==> 0 <= v < varint_value_bound(depth)
            && 1 <= n <= 5 - depth && n <= s.len(),
    decreases 4 - depth,
{
    if s.len() != 0 && depth < 4 && s[0] >= 0x80 {
        lemma_varint_decode_bound(s.skip(1), depth + 1);
    }
}

// --- Round trip ---

proof fn lemma_decode_encode_at(v: u32, rest: Seq<u8>, depth: int)
    requires
        0 <= depth <= 4,
        v < varint_value_bound(depth),
    ensures
        varint_decode_at(varint_encoding(v) + rest, depth) == Ok::<(int, int), SlpError>(
            (v as int, varint_len(v)),
        ),
    decreases v,
{
    let s = varint_encoding(v) + rest;
    lemma_varint_encoding_len(v);
    if v < 0x80 {
        assert(s[0] == v as u8);
    } else {
        assert(s[0] == (v % 0x80 + 0x80) as u8);
        assert(s.skip(1) =~= varint_encoding(v / 0x80) + rest);
        vstd::arithmetic::div_mod::lemma_fundamental_div_mod(v as int, 0x80);
        assert(v / 0x80 < varint_value_bound(depth + 1));
        lemma_decode_encode_at(v / 0x80, rest, depth + 1);
        lemma_varint_encoding_len(v / 0x80);
    }
}

/// Law: decoding the encoding of any 32-bit pattern, with anything at all
/// following it, yields that pattern back and consumes exactly its bytes.
pub proof fn lemma_varint_round_trip_bits(v: u32, rest: Seq<u8>)
    ensures
        varint_decoding(varint_encoding(v) + rest) == Ok::<(int, int), SlpError>(
            (v as int, varint_len(v)),
        ),
        varint_decoding(varint_encoding(v)) == Ok::<(int, int), SlpError>(
            (v as int, varint_len(v)),
        ),
{
    lemma_decode_encode_at(v, rest, 0);
    lemma_decode_encode_at(v, Seq::empty(), 0);
    assert(varint_encoding(v) + Seq::<u8>::empty() =~= varint_encoding(v));
}

// --- The signed surface the protocol uses ---

/// What `encode_varint` returns: the encoding of the value's bit pattern.
pub open spec fn spec_encode_varint(v: i32) -> Seq<u8> {
    varint_encoding(u32_bits_of_i32(v))
}

/// What `decode_varint` returns: the decoded bit pattern read as signed,
/// with the byte count consumed, or the decoding's error.
pub open spec fn spec_decode_varint(s: Seq<u8>) -> Result<(i32, int), SlpError> {
    match varint_decoding(s) {
        Ok((v, n)) => Ok((i32_of_u32_bits(v as u32), n)),
        Err(e) => Err(e),
    }
}

/// Law: every `i32` value round-trips through the varint codec, whatever
/// bytes follow its encoding.
pub proof fn lemma_varint_round_trip(v: i32, rest: Seq<u8>)
    ensures
        spec_decode_varint(spec_encode_varint(v) + rest) == Ok::<(i32, int), SlpError>(
            (v, spec_encode_varint(v).len() as int),
        ),
        spec_decode_varint(spec_encode_varint(v)) == Ok::<(i32, int), SlpError>(
            (v, spec_encode_varint(v).len() as int),
        ),
{
    let u = u32_bits_of_i32(v);
    lemma_varint_round_trip_bits(u, rest);
    lemma_varint_encoding_len(u);
    lemma_bit_pattern_round_trip(v);
}

/// Law: zero encodes as a single byte, and no value takes more than five.
pub proof fn lemma_varint_length_bounds(v: i32)
    ensures
        spec_encode_varint(0i32).len() == 1,
        1 <= spec_encode_varint(v).len() <= 5,
{
    lemma_varint_encoding_len(u32_bits_of_i32(0i32));
    lemma_varint_encoding_len(u32_bits_of_i32(v));
}

// --- Executable codec ---

fn encode_bits(v: u32) -> (r: Vec<u8>)
    ensures
        r@ == varint_encoding(v),
    decreases v,
{
    let mut out: Vec<u8> = Vec::new();
    if v < 0x80 {
        out.push(v as u8);
        proof {
            assert(out@ =~= varint_encoding(v));
        }
        out
    } else {
        proof {
            vstd::arithmetic::div_mod::lemma_fundamental_div_mod(v as int, 0x80);
        }
        out.push((v % 0x80 + 0x80) as u8);
        let mut rest = encode_bits(v / 0x80);
        out.append(&mut rest);
        proof {
            assert(out@ =~= varint_encoding(v));
        }
        out
    }
}

/// Encodes `value` as a varint: 1 to 5 bytes, `[0x00]` for zero, and the
/// bit pattern of a negative value carried without sign extension.
pub fn encode_varint(value: i32) -> (r: Vec<u8>)
    ensures
        r@ == spec_encode_varint(value),
{
    encode_bits(to_bits(value))
}

fn decode_bits(bytes: &Vec<u8>, pos: usize, depth: u8) -> (r: Result<(u32, usize), SlpError>)
    requires
        pos <= bytes@.len(),
        depth <= 4,
    ensures
        ({
            let d = varint_decode_at(bytes@.skip(pos as int), depth as int);
            match r {
                Ok((v, n)) => d == Ok::<(int, int), SlpError>((v as int, n as int))
                    && pos + n <= bytes@.len(),
                Err(e) => d == Err::<(int, int), SlpError>(e),
            }
        }),
    decreases 4 - depth,
{
    if pos == bytes.len() {
        return Err(SlpError::TruncatedStream);
    }
    let b = bytes[pos];
    if depth == 4 {
        if b >= 0x10 {
            Err(SlpError::MalformedVarint)
        } else {
            Ok((b as u32, 1))
        }
    } else if b < 0x80 {
        Ok((b as u32, 1))
    } else {
        proof {
            assert(bytes@.skip(pos as int).skip(1) =~= bytes@.skip(pos as int + 1));
        }
        match decode_bits(bytes, pos + 1, depth + 1) {
            Ok((v, n)) => {
                proof {
                    lemma_varint_decode_bound(bytes@.skip(pos as int + 1), depth as int + 1);
                }
                Ok(((b - 0x80) as u32 + 0x80 * v, n + 1))
            },
            Err(e) => Err(e),
        }
    }
}

/// Decodes the varint that starts at `bytes[start]`, returning the value and
/// how many bytes it occupied, or the error `spec_decode_varint` names.
pub fn decode_varint(bytes: &Vec<u8>, start: usize) -> (r: Result<(i32, usize), SlpError>)
    requires
        start <= bytes@.len(),
    ensures
        ({
            let d = spec_decode_varint(bytes@.skip(start as int));
            match r {
                Ok((v, n)) => d == Ok::<(i32, int), SlpError>((v, n as int))
                    && 1 <= n <= 5 && start + n <= bytes@.len(),
                Err(e) => d == Err::<(i32, int), SlpError>(e),
            }
        }),
{
    match decode_bits(bytes, start, 0) {
        Ok((v, n)) => {
            proof {
                lemma_varint_decode_bound(bytes@.skip(start as int), 0);
            }
            Ok((from_bits(v), n))
        },
        Err(e) => Err(e),
    }
}

} // verus!
