//! The codec's laws, stated over the byte-level layout of `wire`:
//!
//! - every primitive value round-trips: reading right after writing yields
//!   the value written, bit-exactly (floats travel as bit patterns, so
//!   NaN payloads and signed zeros are preserved);
//! - sequential order is preserved: writing any sequence of values of
//!   arbitrary mixed types to one cursor and reading them back in the
//!   same order yields the same values, unchanged.

use vstd::prelude::*;

use crate::codec::read_bool_spec;
use crate::wire::{
    lemma_read_str_prefix, lemma_read_uint_prefix, lemma_read_wstr_prefix,
    lemma_write_str_round_trip, lemma_write_uint_round_trip, lemma_write_wstr_round_trip, pow256,
    read_str_bytes, read_uint, read_wstr_bytes, write_str_bytes, write_uint, write_wstr_bytes,
};
use crate::wire;

verus! {

/// One value of any type the codec supports, as written to a cursor.
/// Floats are carried as their IEEE 754 bit patterns.
pub enum Prim {
    U8(u8),
    U16(u16),
    U32(u32),
    U64(u64),
    I8(i8),
    I16(i16),
    I32(i32),
    I64(i64),
    Bool(bool),
    Char(u8),
    Char16(u16),
    F32Bits(u32),
    F64Bits(u64),
    Str(Seq<u8>),
    WStr(Seq<u16>),
}

/// A value the codec can write: strings must fit their 32-bit length
/// prefix; everything else always fits.
pub open spec fn prim_wf(p: Prim) -> bool {
    match p {
        Prim::Str(c) => c.len() + 1 < pow256(4),
        Prim::WStr(ws) => ws.len() < pow256(4),
        _ => true,
    }
}

/// The stream after writing `p`, exactly as the corresponding
/// `WriteCursor` operation appends it.
pub open spec fn write_prim(s: Seq<u8>, p: Prim) -> Seq<u8> {
    match p {
        Prim::U8(v) => write_uint(s, v as nat, 1),
        Prim::U16(v) => write_uint(s, v as nat, 2),
        Prim::U32(v) => write_uint(s, v as nat, 4),
        Prim::U64(v) => write_uint(s, v as nat, 8),
        Prim::I8(v) => write_uint(s, (v as u8) as nat, 1),
        Prim::I16(v) => write_uint(s, (v as u16) as nat, 2),
        Prim::I32(v) => write_uint(s, (v as u32) as nat, 4),
        Prim::I64(v) => write_uint(s, (v as u64) as nat, 8),
        Prim::Bool(b) => write_uint(
            s,
            if b {
                1nat
            } else {
                0nat
            },
            1,
        ),
        Prim::Char(v) => write_uint(s, v as nat, 1),
        Prim::Char16(v) => write_uint(s, v as nat, 2),
        Prim::F32Bits(v) => write_uint(s, v as nat, 4),
        Prim::F64Bits(v) => write_uint(s, v as nat, 8),
        Prim::Str(c) => write_str_bytes(s, c),
        Prim::WStr(ws) => write_wstr_bytes(s, ws),
    }
}

/// Reading a value of `kind`'s type at `pos`, exactly as the
/// corresponding `ReadCursor` operation decodes it.
pub open spec fn read_prim(s: Seq<u8>, pos: int, kind: Prim) -> Option<(Prim, int)> {
    match kind {
        Prim::U8(_) => match read_uint(s, pos, 1) {
            Some((v, p)) => Some((Prim::U8(v as u8), p)),
            None => None,
        },
        Prim::U16(_) => match read_uint(s, pos, 2) {
            Some((v, p)) => Some((Prim::U16(v as u16), p)),
            None => None,
        },
        Prim::U32(_) => match read_uint(s, pos, 4) {
            Some((v, p)) => Some((Prim::U32(v as u32), p)),
            None => None,
        },
        Prim::U64(_) => match read_uint(s, pos, 8) {
            Some((v, p)) => Some((Prim::U64(v as u64), p)),
            None => None,
        },
        Prim::I8(_) => match read_uint(s, pos, 1) {
            Some((v, p)) => Some((Prim::I8((v as u8) as i8), p)),
            None => None,
        },
        Prim::I16(_) => match read_uint(s, pos, 2) {
            Some((v, p)) => Some((Prim::I16((v as u16) as i16), p)),
            None => None,
        },
        Prim::I32(_) => match read_uint(s, pos, 4) {
            Some((v, p)) => Some((Prim::I32((v as u32) as i32), p)),
            None => None,
        },
        Prim::I64(_) => match read_uint(s, pos, 8) {
            Some((v, p)) => Some((Prim::I64((v as u64) as i64), p)),
            None => None,
        },
        Prim::Bool(_) => match read_bool_spec(s, pos) {
            Some((b, p)) => Some((Prim::Bool(b), p)),
            None => None,
        },
        Prim::Char(_) => match read_uint(s, pos, 1) {
            Some((v, p)) => Some((Prim::Char(v as u8), p)),
            None => None,
        },
        Prim::Char16(_) => match read_uint(s, pos, 2) {
            Some((v, p)) => Some((Prim::Char16(v as u16), p)),
            None => None,
        },
        Prim::F32Bits(_) => match read_uint(s, pos, 4) {
            Some((v, p)) => Some((Prim::F32Bits(v as u32), p)),
            None => None,
        },
        Prim::F64Bits(_) => match read_uint(s, pos, 8) {
            Some((v, p)) => Some((Prim::F64Bits(v as u64), p)),
            None => None,
        },
        Prim::Str(_) => match read_str_bytes(s, pos) {
            Some((c, p)) => Some((Prim::Str(c), p)),
            None => None,
        },
        Prim::WStr(_) => match read_wstr_bytes(s, pos) {
            Some((ws, p)) => Some((Prim::WStr(ws), p)),
            None => None,
        },
    }
}

proof fn lemma_i8_cast(v: i8)
    ensures
        (v as u8) as i8 == v,
{
    assert((v as u8) as i8 == v) by (bit_vector);
}

proof fn lemma_i16_cast(v: i16)
    ensures
        (v as u16) as i16 == v,
{
    assert((v as u16) as i16 == v) by (bit_vector);
}

proof fn lemma_i32_cast(v: i32)
    ensures
        (v as u32) as i32 == v,
{
    assert((v as u32) as i32 == v) by (bit_vector);
}

proof fn lemma_i64_cast(v: i64)
    ensures
        (v as u64) as i64 == v,
{
    assert((v as u64) as i64 == v) by (bit_vector);
}

proof fn lemma_pow_values()
    ensures
        pow256(1) == 0x100,
        pow256(2) == 0x1_0000,
        pow256(4) == 0x1_0000_0000,
        pow256(8) == 0x1_0000_0000_0000_0000,
{
    reveal_with_fuel(pow256, 9);
}

/// Round-trip: reading a value of `p`'s type right after writing `p`
/// yields exactly `p`, with the position at the end of the stream.
pub proof fn lemma_prim_round_trip(s: Seq<u8>, p: Prim)
    requires
        prim_wf(p),
    ensures
        read_prim(write_prim(s, p), s.len() as int, p) == Some(
            (p, write_prim(s, p).len() as int),
        ),
{
    lemma_pow_values();
    match p {
        Prim::U8(v) => lemma_write_uint_round_trip(s, v as nat, 1),
        Prim::U16(v) => lemma_write_uint_round_trip(s, v as nat, 2),
        Prim::U32(v) => lemma_write_uint_round_trip(s, v as nat, 4),
        Prim::U64(v) => lemma_write_uint_round_trip(s, v as nat, 8),
        Prim::I8(v) => {
            lemma_write_uint_round_trip(s, (v as u8) as nat, 1);
            lemma_i8_cast(v);
        },
        Prim::I16(v) => {
            lemma_write_uint_round_trip(s, (v as u16) as nat, 2);
            lemma_i16_cast(v);
        },
        Prim::I32(v) => {
            lemma_write_uint_round_trip(s, (v as u32) as nat, 4);
            lemma_i32_cast(v);
        },
        Prim::I64(v) => {
            lemma_write_uint_round_trip(s, (v as u64) as nat, 8);
            lemma_i64_cast(v);
        },
        Prim::Bool(b) => {
            lemma_write_uint_round_trip(
                s,
                if b {
                    1nat
                } else {
                    0nat
                },
                1,
            );
        },
        Prim::Char(v) => lemma_write_uint_round_trip(s, v as nat, 1),
        Prim::Char16(v) => lemma_write_uint_round_trip(s, v as nat, 2),
        Prim::F32Bits(v) => lemma_write_uint_round_trip(s, v as nat, 4),
        Prim::F64Bits(v) => lemma_write_uint_round_trip(s, v as nat, 8),
        Prim::Str(c) => lemma_write_str_round_trip(s, c),
        Prim::WStr(ws) => lemma_write_wstr_round_trip(s, ws),
    }
}

/// Reading a value is unaffected by bytes appended after it.
pub proof fn lemma_read_prim_prefix(s1: Seq<u8>, s2: Seq<u8>, pos: int, kind: Prim)
    requires
        0 <= pos,
        s1.len() <= s2.len(),
        s2.subrange(0, s1.len() as int) == s1,
        read_prim(s1, pos, kind) is Some,
    ensures
        read_prim(s2, pos, kind) == read_prim(s1, pos, kind),
{
    match kind {
        Prim::U8(_) => lemma_read_uint_prefix(s1, s2, pos, 1),
        Prim::U16(_) => lemma_read_uint_prefix(s1, s2, pos, 2),
        Prim::U32(_) => lemma_read_uint_prefix(s1, s2, pos, 4),
        Prim::U64(_) => lemma_read_uint_prefix(s1, s2, pos, 8),
        Prim::I8(_) => lemma_read_uint_prefix(s1, s2, pos, 1),
        Prim::I16(_) => lemma_read_uint_prefix(s1, s2, pos, 2),
        Prim::I32(_) => lemma_read_uint_prefix(s1, s2, pos, 4),
        Prim::I64(_) => lemma_read_uint_prefix(s1, s2, pos, 8),
        Prim::Bool(_) => lemma_read_uint_prefix(s1, s2, pos, 1),
        Prim::Char(_) => lemma_read_uint_prefix(s1, s2, pos, 1),
        Prim::Char16(_) => lemma_read_uint_prefix(s1, s2, pos, 2),
        Prim::F32Bits(_) => lemma_read_uint_prefix(s1, s2, pos, 4),
        Prim::F64Bits(_) => lemma_read_uint_prefix(s1, s2, pos, 8),
        Prim::Str(_) => lemma_read_str_prefix(s1, s2, pos),
        Prim::WStr(_) => lemma_read_wstr_prefix(s1, s2, pos),
    }
}

/// Writing a value only appends bytes: the old stream stays a prefix.
pub proof fn lemma_write_prim_prefix(s: Seq<u8>, p: Prim)
    ensures
        write_prim(s, p).len() >= s.len(),
        write_prim(s, p).subrange(0, s.len() as int) == s,
{
    match p {
        Prim::Str(c) => {
            wire::lemma_write_uint_prefix(s, c.len() + 1, 4);
            assert(write_prim(s, p).subrange(0, s.len() as int) =~= s);
        },
        Prim::WStr(ws) => {
            wire::lemma_write_uint_prefix(s, ws.len(), 4);
            wire::lemma_wstr_elems_len(ws);
            assert(write_prim(s, p).subrange(0, s.len() as int) =~= s);
        },
        _ => {
            assert(write_prim(s, p).subrange(0, s.len() as int) =~= s);
        },
    }
}

/// The stream after writing the values of `ps` in order.
pub open spec fn write_all(s: Seq<u8>, ps: Seq<Prim>) -> Seq<u8>
    decreases ps.len(),
{
    if ps.len() == 0 {
        s
    } else {
        write_all(write_prim(s, ps[0]), ps.skip(1))
    }
}

/// Reading the values of `ps` in order from `pos` succeeds and yields
/// exactly the values of `ps`.
pub open spec fn reads_back(s: Seq<u8>, pos: int, ps: Seq<Prim>) -> bool
    decreases ps.len(),
{
    if ps.len() == 0 {
        true
    } else {
        match read_prim(s, pos, ps[0]) {
            Some((v, p)) => v == ps[0] && reads_back(s, p, ps.skip(1)),
            None => false,
        }
    }
}

proof fn lemma_write_all_prefix(s: Seq<u8>, ps: Seq<Prim>)
    ensures
        write_all(s, ps).len() >= s.len(),
        write_all(s, ps).subrange(0, s.len() as int) == s,
    decreases ps.len(),
{
    if ps.len() == 0 {
        assert(write_all(s, ps).subrange(0, s.len() as int) =~= s);
    } else {
        let s1 = write_prim(s, ps[0]);
        lemma_write_prim_prefix(s, ps[0]);
        lemma_write_all_prefix(s1, ps.skip(1));
        wire::lemma_subrange_of_prefix(s1, write_all(s1, ps.skip(1)), 0, s.len() as int);
        assert(write_all(s, ps).subrange(0, s.len() as int) == s1.subrange(0, s.len() as int));
    }
}

/// Sequential order preservation: writing any well-formed values
/// `v1 .. vn` of arbitrary mixed types to one stream and reading them
/// back in the same order from where writing started yields `v1 .. vn`
/// unchanged. Single-value round-trips are the case `n == 1`.
pub proof fn lemma_sequential_round_trip(s0: Seq<u8>, ps: Seq<Prim>)
    requires
        forall|i: int| 0 <= i < ps.len() ==> prim_wf(#[trigger] ps[i]),
    ensures
        reads_back(write_all(s0, ps), s0.len() as int, ps),
    decreases ps.len(),
{
    if ps.len() > 0 {
        let s1 = write_prim(s0, ps[0]);
        let rest = ps.skip(1);
        assert(forall|i: int| 0 <= i < rest.len() ==> prim_wf(#[trigger] rest[i])) by {
            assert(forall|i: int|
                0 <= i < rest.len() ==> #[trigger] rest[i] == ps[i + 1] && prim_wf(ps[i + 1]));
        }
        lemma_sequential_round_trip(s1, rest);
        let s2 = write_all(s1, rest);
        assert(write_all(s0, ps) == s2);
        lemma_prim_round_trip(s0, ps[0]);
        lemma_write_all_prefix(s1, rest);
        lemma_read_prim_prefix(s1, s2, s0.len() as int, ps[0]);
        assert(read_prim(s2, s0.len() as int, ps[0]) == Some((ps[0], s1.len() as int)));
    }
}

} // verus!
