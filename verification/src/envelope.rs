//! The message envelope: every transport-level message carries a fixed
//! header in front of the application payload. A publisher frames the
//! payload as `identity (16 bytes) ‖ sequence (u64, big-endian) ‖ payload`,
//! and the node prepends the capture timestamp,
//! `seconds (u64, big-endian) ‖ microseconds (u32, big-endian)`, so the
//! final wire bytes are `seconds ‖ microseconds ‖ identity ‖ sequence ‖
//! payload`.

use vstd::prelude::*;

use crate::codec::CodecError;
use crate::wire::{append_all, be_bytes, be_val, copy_range, lemma_be_bytes_len, push_be, read_be};
use crate::wire;

verus! {

/// Length in bytes of a publisher or subscription identity.
pub const IDENTITY_LEN: usize = 16;

/// Length of the frame header a publisher writes: identity plus sequence.
pub const FRAME_HEADER_LEN: usize = 24;

/// Length of the timestamp header the node prepends.
pub const TIMESTAMP_LEN: usize = 12;

/// The frame a publisher builds around a payload.
pub open spec fn frame_bytes(identity: Seq<u8>, sequence: u64, payload: Seq<u8>) -> Seq<u8> {
    identity + be_bytes(sequence as nat, 8) + payload
}

/// The final wire bytes: capture timestamp, then the frame.
pub open spec fn wire_bytes(secs: u64, usecs: u32, frame: Seq<u8>) -> Seq<u8> {
    be_bytes(secs as nat, 8) + be_bytes(usecs as nat, 4) + frame
}

/// Builds the identity-and-sequence frame around `payload`.
pub fn encode_frame(identity: &Vec<u8>, sequence: u64, payload: &Vec<u8>) -> (r: Vec<u8>)
    requires
        identity@.len() == IDENTITY_LEN,
    ensures
        r@ == frame_bytes(identity@, sequence, payload@),
{
    let mut out: Vec<u8> = Vec::new();
    append_all(&mut out, identity);
    push_be(&mut out, sequence, 8);
    append_all(&mut out, payload);
    proof {
        assert(out@ =~= frame_bytes(identity@, sequence, payload@));
    }
    out
}

/// Prepends the capture timestamp to a frame, yielding the wire bytes.
pub fn encode_wire(secs: u64, usecs: u32, frame: &Vec<u8>) -> (r: Vec<u8>)
    ensures
        r@ == wire_bytes(secs, usecs, frame@),
{
    let mut out: Vec<u8> = Vec::new();
    push_be(&mut out, secs, 8);
    push_be(&mut out, usecs as u64, 4);
    append_all(&mut out, frame);
    proof {
        assert(out@ =~= wire_bytes(secs, usecs, frame@));
    }
    out
}

/// Splits a frame back into identity, sequence and payload. Fails exactly
/// when fewer bytes than the fixed header remain.
pub fn decode_frame(bytes: &Vec<u8>) -> (r: Result<(Vec<u8>, u64, Vec<u8>), CodecError>)
    ensures
        r is Ok <==> bytes@.len() >= FRAME_HEADER_LEN,
        r matches Ok(f) ==> f.0@ == bytes@.subrange(0, IDENTITY_LEN as int) && f.1 as nat == be_val(
            bytes@.subrange(IDENTITY_LEN as int, FRAME_HEADER_LEN as int),
        ) && f.2@ == bytes@.subrange(FRAME_HEADER_LEN as int, bytes@.len() as int),
        r is Err ==> r == Err::<(Vec<u8>, u64, Vec<u8>), CodecError>(CodecError::MalformedInput),
{
    if bytes.len() < FRAME_HEADER_LEN {
        return Err(CodecError::MalformedInput);
    }
    let identity = copy_range(bytes, 0, IDENTITY_LEN);
    let sequence = read_be(bytes, IDENTITY_LEN, 8);
    let payload = copy_range(bytes, FRAME_HEADER_LEN, bytes.len());
    Ok((identity, sequence, payload))
}

/// Splits wire bytes back into seconds, microseconds and the frame. Fails
/// exactly when fewer bytes than the timestamp header remain.
pub fn decode_wire(bytes: &Vec<u8>) -> (r: Result<(u64, u32, Vec<u8>), CodecError>)
    ensures
        r is Ok <==> bytes@.len() >= TIMESTAMP_LEN,
        r matches Ok(w) ==> w.0 as nat == be_val(bytes@.subrange(0, 8)) && w.1 as nat == be_val(
            bytes@.subrange(8, TIMESTAMP_LEN as int),
        ) && w.2@ == bytes@.subrange(TIMESTAMP_LEN as int, bytes@.len() as int),
        r is Err ==> r == Err::<(u64, u32, Vec<u8>), CodecError>(CodecError::MalformedInput),
{
    if bytes.len() < TIMESTAMP_LEN {
        return Err(CodecError::MalformedInput);
    }
    let secs = read_be(bytes, 0, 8);
    let usecs = read_be(bytes, 8, 4);
    proof {
        assert(wire::pow256(4) == 0x1_0000_0000) by {
            reveal_with_fuel(wire::pow256, 5);
        }
    }
    let frame = copy_range(bytes, TIMESTAMP_LEN, bytes.len());
    Ok((secs, usecs as u32, frame))
}

/// Envelope shape: a frame is exactly 24 bytes of header followed by the
/// payload verbatim, and the wire bytes add exactly 12 bytes of timestamp
/// in front, so both end with the payload.
pub proof fn lemma_envelope_shape(
    secs: u64,
    usecs: u32,
    identity: Seq<u8>,
    sequence: u64,
    payload: Seq<u8>,
)
    requires
        identity.len() == IDENTITY_LEN,
    ensures
        ({
            let f = frame_bytes(identity, sequence, payload);
            &&& f.len() == payload.len() + FRAME_HEADER_LEN
            &&& f.subrange(FRAME_HEADER_LEN as int, f.len() as int) == payload
            &&& ({
                let w = wire_bytes(secs, usecs, f);
                &&& w.len() == payload.len() + FRAME_HEADER_LEN + TIMESTAMP_LEN
                &&& w.subrange(w.len() - payload.len(), w.len() as int) == payload
            })
        }),
{
    lemma_be_bytes_len(sequence as nat, 8);
    lemma_be_bytes_len(secs as nat, 8);
    lemma_be_bytes_len(usecs as nat, 4);
    let f = frame_bytes(identity, sequence, payload);
    let w = wire_bytes(secs, usecs, f);
    assert(f.subrange(FRAME_HEADER_LEN as int, f.len() as int) =~= payload);
    assert(w.subrange(w.len() - payload.len(), w.len() as int) =~= payload);
}

/// Decoding inverts framing: the identity, sequence and payload written by
/// `frame_bytes` are recovered exactly by the subranges `decode_frame`
/// reads, and likewise for the timestamp header.
pub proof fn lemma_frame_round_trip(
    secs: u64,
    usecs: u32,
    identity: Seq<u8>,
    sequence: u64,
    payload: Seq<u8>,
)
    requires
        identity.len() == IDENTITY_LEN,
    ensures
        ({
            let f = frame_bytes(identity, sequence, payload);
            &&& f.subrange(0, IDENTITY_LEN as int) == identity
            &&& be_val(f.subrange(IDENTITY_LEN as int, FRAME_HEADER_LEN as int)) == sequence as nat
            &&& f.subrange(FRAME_HEADER_LEN as int, f.len() as int) == payload
        }),
        ({
            let w = wire_bytes(secs, usecs, frame_bytes(identity, sequence, payload));
            &&& be_val(w.subrange(0, 8)) == secs as nat
            &&& be_val(w.subrange(8, TIMESTAMP_LEN as int)) == usecs as nat
            &&& w.subrange(TIMESTAMP_LEN as int, w.len() as int) == frame_bytes(
                identity,
                sequence,
                payload,
            )
        }),
{
    lemma_be_bytes_len(sequence as nat, 8);
    lemma_be_bytes_len(secs as nat, 8);
    lemma_be_bytes_len(usecs as nat, 4);
    let f = frame_bytes(identity, sequence, payload);
    let w = wire_bytes(secs, usecs, f);
    assert(f.subrange(0, IDENTITY_LEN as int) =~= identity);
    assert(f.subrange(IDENTITY_LEN as int, FRAME_HEADER_LEN as int) =~= be_bytes(
        sequence as nat,
        8,
    ));
    assert(f.subrange(FRAME_HEADER_LEN as int, f.len() as int) =~= payload);
    assert(wire::pow256(8) == 0x1_0000_0000_0000_0000) by {
        reveal_with_fuel(wire::pow256, 9);
    }
    assert(wire::pow256(4) == 0x1_0000_0000) by {
        reveal_with_fuel(wire::pow256, 5);
    }
    wire::lemma_be_round_trip(sequence as nat, 8);
    wire::lemma_be_round_trip(secs as nat, 8);
    wire::lemma_be_round_trip(usecs as nat, 4);
    assert(w.subrange(0, 8) =~= be_bytes(secs as nat, 8));
    assert(w.subrange(8, TIMESTAMP_LEN as int) =~= be_bytes(usecs as nat, 4));
    assert(w.subrange(TIMESTAMP_LEN as int, w.len() as int) =~= f);
}

} // verus!
