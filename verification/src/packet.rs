//! Packet framing for the status round-trip: the outbound handshake and
//! status-request packets, and the unframing of the inbound response down to
//! its JSON text. A packet is a varint length prefix followed by that many
//! payload bytes; the prefix counts only the bytes after itself.

use vstd::prelude::*;
use vstd::utf8::{valid_utf8, decode_utf8, encode_utf8};
use vstd::string::{StringSliceAdditionalSpecFns, StrSliceExecFns};
use crate::SlpError;
use crate::varint::{
    varint_encoding, varint_decoding, varint_len, encode_varint, decode_varint,
    lemma_varint_round_trip_bits, lemma_varint_encoding_len, lemma_varint_decode_bound,
    u32_bits_of_i32,
};

verus! {

/// The protocol generation this client declares in its handshake.
pub const PROTOCOL_VERSION: i32 = 763;

// --- Building the two outbound packets ---

/// The two raw bytes of a port, high byte first.
pub open spec fn spec_port_bytes(port: u16) -> Seq<u8> {
    seq![(port / 0x100) as u8, (port % 0x100) as u8]
}

/// The handshake payload: packet id `0x00`, the protocol version as a varint,
/// the host's byte length as a varint, the host bytes, the port big-endian,
/// and the next-state byte `0x01` asking for status.
pub open spec fn spec_handshake_payload(host: Seq<u8>, port: u16) -> Seq<u8> {
    seq![0x00u8] + varint_encoding(PROTOCOL_VERSION as u32) + varint_encoding(host.len() as u32)
        + host + spec_port_bytes(port) + seq![0x01u8]
}

/// The full handshake packet: the payload behind its varint length prefix.
pub open spec fn spec_handshake_packet(host: Seq<u8>, port: u16) -> Seq<u8> {
    varint_encoding(spec_handshake_payload(host, port).len() as u32) + spec_handshake_payload(
        host,
        port,
    )
}

/// Builds the handshake packet that announces `host` and `port` and asks the
/// server for its status.
pub fn build_handshake(host: &str, port: u16) -> (r: Vec<u8>)
    requires
        host.spec_bytes().len() <= 0x7fff_ff00,
    ensures
        r@ == spec_handshake_packet(host.spec_bytes(), port),
{
    let mut host_bytes: Vec<u8> = host.as_bytes_vec();
    let ghost hb = host_bytes@;
    let mut payload: Vec<u8> = Vec::new();
    payload.push(0x00);
    let mut version = encode_varint(PROTOCOL_VERSION);
    payload.append(&mut version);
    proof {
        lemma_varint_encoding_len(host_bytes@.len() as u32);
    }
    let mut host_len = encode_varint(host_bytes.len() as i32);
    payload.append(&mut host_len);
    payload.append(&mut host_bytes);
    payload.push((port / 0x100) as u8);
    payload.push((port % 0x100) as u8);
    payload.push(0x01);
    proof {
        assert(payload@ =~= spec_handshake_payload(hb, port));
        lemma_varint_encoding_len(PROTOCOL_VERSION as u32);
        assert(payload@.len() < 0x8000_0000);
        lemma_varint_encoding_len(payload@.len() as u32);
    }
    let mut packet = encode_varint(payload.len() as i32);
    packet.append(&mut payload);
    proof {
        assert(packet@ =~= spec_handshake_packet(hb, port));
    }
    packet
}

/// The fixed status-request packet: outer length 1, inner packet id 0.
pub open spec fn spec_status_request() -> Seq<u8> {
    seq![0x01u8, 0x00u8]
}

/// Builds the status-request packet, always the two bytes `[0x01, 0x00]`.
pub fn build_status_request() -> (r: Vec<u8>)
    ensures
        r@ == spec_status_request(),
{
    let mut r: Vec<u8> = Vec::new();
    r.push(0x01);
    r.push(0x00);
    proof {
        assert(r@ =~= spec_status_request());
    }
    r
}

// --- Parsing a handshake packet back apart ---

/// Takes a handshake packet apart into the host bytes and port it announces.
/// The declared length must be covered by the bytes that follow it; the fixed
/// packet-id and next-state bytes must hold their one valid value, and a
/// wrong one is a `SchemaMismatch`.
pub open spec fn spec_parse_handshake(s: Seq<u8>) -> Result<(Seq<u8>, u16), SlpError> {
    match varint_decoding(s) {
        Err(e) => Err(e),
        Ok((plen, n0)) => {
            let p = s.skip(n0);
            if plen >= 0x8000_0000 {
                Err(SlpError::TruncatedStream)
            } else if p.len() < plen {
                Err(SlpError::TruncatedStream)
            } else if p.len() < 1 {
                Err(SlpError::TruncatedStream)
            } else if p[0] != 0x00 {
                Err(SlpError::SchemaMismatch)
            } else {
                match varint_decoding(p.skip(1)) {
                    Err(e) => Err(e),
                    Ok((_version, n1)) => {
                        match varint_decoding(p.skip(1 + n1)) {
                            Err(e) => Err(e),
                            Ok((hlen, n2)) => {
                                let q = p.skip(1 + n1 + n2);
                                if hlen >= 0x8000_0000 {
                                    Err(SlpError::TruncatedStream)
                                } else if q.len() < hlen + 3 {
                                    Err(SlpError::TruncatedStream)
                                } else if q[hlen + 2] != 0x01 {
                                    Err(SlpError::SchemaMismatch)
                                } else {
                                    Ok(
                                        (
                                            q.subrange(0, hlen),
                                            (q[hlen] * 0x100 + q[hlen + 1]) as u16,
                                        ),
                                    )
                                }
                            },
                        }
                    },
                }
            }
        },
    }
}

/// Law: a handshake packet parses back to exactly the host bytes and port it
/// was built from.
pub proof fn lemma_handshake_round_trip(host: Seq<u8>, port: u16)
    requires
        host.len() <= 0x7fff_ff00,
    ensures
        spec_parse_handshake(spec_handshake_packet(host, port)) == Ok::<(Seq<u8>, u16), SlpError>(
            (host, port),
        ),
{
    let payload = spec_handshake_payload(host, port);
    let plen_bits = payload.len() as u32;
    lemma_varint_encoding_len(plen_bits);
    lemma_varint_encoding_len(PROTOCOL_VERSION as u32);
    lemma_varint_encoding_len(host.len() as u32);
    let hv = varint_encoding(host.len() as u32);
    assert(payload.len() == 4 + 2 + hv.len() + host.len());
    lemma_varint_round_trip_bits(plen_bits, payload);
    let s = spec_handshake_packet(host, port);
    let n0 = varint_len(plen_bits);
    assert(s.skip(n0) =~= payload);
    assert(payload[0] == 0x00u8);
    assert(payload.skip(1) =~= varint_encoding(PROTOCOL_VERSION as u32) + (hv + host
        + spec_port_bytes(port) + seq![0x01u8]));
    lemma_varint_round_trip_bits(
        PROTOCOL_VERSION as u32,
        hv + host + spec_port_bytes(port) + seq![0x01u8],
    );
    let n1 = varint_len(PROTOCOL_VERSION as u32);
    assert(n1 == 2);
    assert(payload.skip(1 + n1) =~= hv + (host + spec_port_bytes(port) + seq![0x01u8]));
    lemma_varint_round_trip_bits(
        host.len() as u32,
        host + spec_port_bytes(port) + seq![0x01u8],
    );
    let n2 = varint_len(host.len() as u32);
    let q = payload.skip(1 + n1 + n2);
    assert(q =~= host + spec_port_bytes(port) + seq![0x01u8]);
    assert(q.len() == host.len() + 3);
    assert(q[host.len() as int + 2] == 0x01u8);
    assert(q.subrange(0, host.len() as int) =~= host);
    assert(q[host.len() as int] == (port / 0x100) as u8);
    assert(q[host.len() as int + 1] == (port % 0x100) as u8);
    assert((port / 0x100) as u8 * 0x100 + (port % 0x100) as u8 == port);
}

/// Parses a handshake packet, recovering the host (as text) and the port.
/// Fails with `InvalidUtf8` when the announced host bytes are not UTF-8.
#[verifier::rlimit(60)]
pub fn parse_handshake_bytes(bytes: &Vec<u8>) -> (r: Result<(String, u16), SlpError>)
    ensures
        match r {
            Ok((host, port)) => spec_parse_handshake(bytes@) == Ok::<(Seq<u8>, u16), SlpError>(
                (encode_utf8(host@), port),
            ),
            Err(e) => (spec_parse_handshake(bytes@) == Err::<(Seq<u8>, u16), SlpError>(e)) || (
            match spec_parse_handshake(bytes@) {
                Ok((hb, _)) => e == SlpError::InvalidUtf8 && !valid_utf8(hb),
                Err(_) => false,
            }),
        },
{
    proof {
        assert(bytes@.skip(0int) =~= bytes@);
    }
    let (plen, n0) = match decode_varint(bytes, 0) {
        Ok(v) => v,
        Err(e) => {
            return Err(e);
        },
    };
    proof {
        lemma_varint_decode_bound(bytes@, 0);
        let (pv, pn) = varint_decoding(bytes@).unwrap();
        crate::varint::lemma_bit_pattern_round_trip_u32(pv as u32);
        assert(u32_bits_of_i32(plen) == pv as u32);
    }
    if plen < 0 {
        return Err(SlpError::TruncatedStream);
    }
    let rem0 = bytes.len() - n0;
    if rem0 < (plen as usize) || rem0 < 1 {
        return Err(SlpError::TruncatedStream);
    }
    proof {
        assert(bytes@.skip(n0 as int)[0] == bytes@[n0 as int]);
        assert(bytes@.skip(n0 as int).skip(1) =~= bytes@.skip(n0 as int + 1));
    }
    if bytes[n0] != 0x00 {
        return Err(SlpError::SchemaMismatch);
    }
    let (_version, n1) = match decode_varint(bytes, n0 + 1) {
        Ok(v) => v,
        Err(e) => {
            return Err(e);
        },
    };
    proof {
        assert(bytes@.skip(n0 as int).skip(1 + n1) =~= bytes@.skip(n0 as int + 1 + n1));
    }
    let (hlen, n2) = match decode_varint(bytes, n0 + 1 + n1) {
        Ok(v) => v,
        Err(e) => {
            return Err(e);
        },
    };
    let ghost p = bytes@.skip(n0 as int);
    let ghost q = p.skip(1 + n1 + n2);
    let base = n0 + 1 + n1 + n2;
    proof {
        assert(q =~= bytes@.skip(base as int));
        lemma_varint_decode_bound(bytes@.skip(n0 as int + 1 + n1), 0);
        let (hv, hn) = varint_decoding(bytes@.skip(n0 as int + 1 + n1)).unwrap();
        crate::varint::lemma_bit_pattern_round_trip_u32(hv as u32);
        assert(u32_bits_of_i32(hlen) == hv as u32);
    }
    if hlen < 0 {
        return Err(SlpError::TruncatedStream);
    }
    let rem = bytes.len() - base;
    if rem < 3 || rem - 3 < (hlen as usize) {
        return Err(SlpError::TruncatedStream);
    }
    let hlen_u = hlen as usize;
    let mut host_bytes: Vec<u8> = Vec::new();
    let mut i: usize = 0;
    while i < hlen_u
        invariant
            i <= hlen_u,
            base + hlen_u + 3 <= bytes@.len(),
            bytes@.len() <= usize::MAX,
            host_bytes@ =~= bytes@.subrange(base as int, base as int + i as int),
        decreases hlen_u - i,
    {
        host_bytes.push(bytes[base + i]);
        i = i + 1;
    }
    proof {
        assert(host_bytes@ =~= q.subrange(0, hlen as int));
        assert(q[hlen as int] == bytes@[base as int + hlen as int]);
        assert(q[hlen as int + 1] == bytes@[base as int + hlen as int + 1]);
        assert(q[hlen as int + 2] == bytes@[base as int + hlen as int + 2]);
    }
    if bytes[base + hlen_u + 2] != 0x01 {
        return Err(SlpError::SchemaMismatch);
    }
    let port: u16 = (bytes[base + hlen_u] as u16) * 0x100 + (bytes[base + hlen_u + 1] as u16);
    let ghost hb = host_bytes@;
    proof {
        assert(spec_parse_handshake(bytes@) == Ok::<(Seq<u8>, u16), SlpError>((hb, port)));
    }
    match bytes_to_string(host_bytes) {
        Some(host) => {
            proof {
                vstd::utf8::decode_utf8_encode_utf8(hb);
            }
            Ok((host, port))
        },
        None => Err(SlpError::InvalidUtf8),
    }
}

// --- Unframing the status response ---

/// Relies on `String::from_utf8`: it succeeds exactly on valid UTF-8 input,
/// and the string it returns holds the bytes' decoding.
#[verifier::external_body]
fn bytes_to_string(bytes: Vec<u8>) -> (r: Option<String>)
    ensures
        r is Some <==> valid_utf8(bytes@),
        r matches Some(s) ==> s@ == decode_utf8(bytes@),
{
    match String::from_utf8(bytes) {
        Ok(s) => Some(s),
        Err(_) => None,
    }
}

/// Strips the response framing down to the JSON body's bytes: a varint packet
/// length and a varint packet id (both read and tolerated, as the protocol's
/// leniency asks), then a varint byte count and exactly that many bytes.
/// A count that the remaining bytes cannot cover is a `TruncatedStream`; so is
/// a count with the sign bit set, which no stream could ever satisfy.
pub open spec fn spec_unframe_response(s: Seq<u8>) -> Result<Seq<u8>, SlpError> {
    match varint_decoding(s) {
        Err(e) => Err(e),
        Ok((_plen, n0)) => {
            match varint_decoding(s.skip(n0)) {
                Err(e) => Err(e),
                Ok((_pid, n1)) => {
                    match varint_decoding(s.skip(n0 + n1)) {
                        Err(e) => Err(e),
                        Ok((slen, n2)) => {
                            let body = s.skip(n0 + n1 + n2);
                            if slen >= 0x8000_0000 {
                                Err(SlpError::TruncatedStream)
                            } else if body.len() < slen {
                                Err(SlpError::TruncatedStream)
                            } else {
                                Ok(body.subrange(0, slen))
                            }
                        },
                    }
                },
            }
        },
    }
}

/// The response's JSON text: the unframed body read as UTF-8.
pub open spec fn spec_read_response(s: Seq<u8>) -> Result<Seq<char>, SlpError> {
    match spec_unframe_response(s) {
        Err(e) => Err(e),
        Ok(body) => if valid_utf8(body) {
            Ok(decode_utf8(body))
        } else {
            Err(SlpError::InvalidUtf8)
        },
    }
}

/// Unframes a status response and returns its JSON text.
pub fn read_response(bytes: &Vec<u8>) -> (r: Result<String, SlpError>)
    ensures
        match r {
            Ok(s) => spec_read_response(bytes@) == Ok::<Seq<char>, SlpError>(s@),
            Err(e) => spec_read_response(bytes@) == Err::<Seq<char>, SlpError>(e),
        },
{
    proof {
        assert(bytes@.skip(0int) =~= bytes@);
    }
    let (_plen, n0) = match decode_varint(bytes, 0) {
        Ok(v) => v,
        Err(e) => {
            return Err(e);
        },
    };
    let (_pid, n1) = match decode_varint(bytes, n0) {
        Ok(v) => v,
        Err(e) => {
            return Err(e);
        },
    };
    proof {
        assert(bytes@.skip(n0 as int + n1) =~= bytes@.skip(n0 as int).skip(n1 as int));
    }
    let (slen, n2) = match decode_varint(bytes, n0 + n1) {
        Ok(v) => v,
        Err(e) => {
            return Err(e);
        },
    };
    let base = n0 + n1 + n2;
    let ghost body = bytes@.skip(base as int);
    proof {
        assert(body =~= bytes@.skip(n0 as int + n1).skip(n2 as int));
        lemma_varint_decode_bound(bytes@.skip(n0 as int + n1), 0);
        let (sv, sn) = varint_decoding(bytes@.skip(n0 as int + n1)).unwrap();
        crate::varint::lemma_bit_pattern_round_trip_u32(sv as u32);
        assert(u32_bits_of_i32(slen) == sv as u32);
    }
    if slen < 0 {
        return Err(SlpError::TruncatedStream);
    }
    let slen_u = slen as usize;
    let rem = bytes.len() - base;
    if rem < slen_u {
        return Err(SlpError::TruncatedStream);
    }
    let mut body_bytes: Vec<u8> = Vec::new();
    let mut i: usize = 0;
    while i < slen_u
        invariant
            i <= slen_u,
            base + slen_u <= bytes@.len(),
            bytes@.len() <= usize::MAX,
            body_bytes@ =~= bytes@.subrange(base as int, base as int + i as int),
        decreases slen_u - i,
    {
        body_bytes.push(bytes[base + i]);
        i = i + 1;
    }
    proof {
        assert(body_bytes@ =~= body.subrange(0, slen as int));
        assert(spec_unframe_response(bytes@) == Ok::<Seq<u8>, SlpError>(body_bytes@));
    }
    match bytes_to_string(body_bytes) {
        Some(s) => Ok(s),
        None => Err(SlpError::InvalidUtf8),
    }
}

} // verus!
