//! The primitive codec: a write cursor over a growable byte buffer and a
//! read cursor over an immutable byte buffer, encoding fixed-width values,
//! booleans, characters and length-prefixed strings in the big-endian,
//! alignment-padded layout of `wire`.
//!
//! Floating-point values travel as their IEEE 754 bit patterns (`u32` /
//! `u64`), which keeps every value, including NaN payloads, bit-exact.

use vstd::prelude::*;

use crate::wire;
use crate::wire::{
    copy_range, pad_to, push_be, read_be, read_str_bytes, read_uint, read_wstr_bytes, write_uint,
};

verus! {

/// Errors reported by codec operations.
#[derive(Clone, Copy, Debug, PartialEq, Eq, Structural)]
pub enum CodecError {
    /// Fewer bytes remained than the requested value needs, or a field
    /// held an invalid encoding (a boolean byte other than 0 or 1, a
    /// string length of 0).
    MalformedInput,
    /// A string was too long for its 32-bit length prefix.
    OversizedInput,
}

/// Reading one boolean byte: 0 is `false`, 1 is `true`, anything else is
/// an invalid encoding.
pub open spec fn read_bool_spec(s: Seq<u8>, pos: int) -> Option<(bool, int)> {
    match read_uint(s, pos, 1) {
        Some((v, p)) => if v == 0 {
            Some((false, p))
        } else if v == 1 {
            Some((true, p))
        } else {
            None
        },
        None => None,
    }
}

/// A write cursor over a growable byte buffer.
pub struct WriteCursor {
    buf: Vec<u8>,
}

/// A read cursor over an immutable byte buffer of known length.
pub struct ReadCursor {
    buf: Vec<u8>,
    pos: usize,
}

impl WriteCursor {
    /// The bytes written so far.
    pub closed spec fn bytes(&self) -> Seq<u8> {
        self.buf@
    }

    /// Creates an empty write cursor.
    pub fn write_new() -> (c: WriteCursor)
        ensures
            c.bytes() == Seq::<u8>::empty(),
    {
        WriteCursor { buf: Vec::new() }
    }

    /// Number of bytes written so far.
    pub fn byte_len(&self) -> (n: usize)
        ensures
            n == self.bytes().len(),
    {
        self.buf.len()
    }

    /// Borrows the bytes written so far.
    pub fn as_bytes(&self) -> (r: &Vec<u8>)
        ensures
            r@ == self.bytes(),
    {
        &self.buf
    }

    /// Consumes the cursor, yielding the bytes written.
    pub fn into_bytes(self) -> (r: Vec<u8>)
        ensures
            r@ == self.bytes(),
    {
        self.buf
    }

    /// Appends `data` verbatim, with no padding and no length prefix.
    pub fn write_bytes(&mut self, data: &Vec<u8>)
        ensures
            final(self).bytes() == old(self).bytes() + data@,
    {
        let mut i: usize = 0;
        let n = data.len();
        while i < n
            invariant
                i <= n,
                n == data@.len(),
                self.buf@ =~= old(self).bytes() + data@.subrange(0, i as int),
            decreases n - i,
        {
            self.buf.push(data[i]);
            proof {
                assert(self.buf@ =~= old(self).bytes() + data@.subrange(0, i + 1));
            }
            i = i + 1;
        }
        proof {
            assert(data@.subrange(0, n as int) =~= data@);
        }
    }

    /// Appends an unsigned 8-bit value.
    pub fn write_u8(&mut self, v: u8)
        ensures
            final(self).bytes() == write_uint(old(self).bytes(), v as nat, 1),
    {
        pad_to(&mut self.buf, 1);
        push_be(&mut self.buf, v as u64, 1);
    }

    /// Appends an unsigned 16-bit value, big-endian, 2-byte aligned.
    pub fn write_u16(&mut self, v: u16)
        ensures
            final(self).bytes() == write_uint(old(self).bytes(), v as nat, 2),
    {
        pad_to(&mut self.buf, 2);
        push_be(&mut self.buf, v as u64, 2);
    }

    /// Appends an unsigned 32-bit value, big-endian, 4-byte aligned.
    pub fn write_u32(&mut self, v: u32)
        ensures
            final(self).bytes() == write_uint(old(self).bytes(), v as nat, 4),
    {
        pad_to(&mut self.buf, 4);
        push_be(&mut self.buf, v as u64, 4);
    }

    /// Appends an unsigned 64-bit value, big-endian, 8-byte aligned.
    pub fn write_u64(&mut self, v: u64)
        ensures
            final(self).bytes() == write_uint(old(self).bytes(), v as nat, 8),
    {
        pad_to(&mut self.buf, 8);
        push_be(&mut self.buf, v, 8);
    }

    /// Appends a signed 8-bit value as its two's-complement byte.
    pub fn write_i8(&mut self, v: i8)
        ensures
            final(self).bytes() == write_uint(old(self).bytes(), (v as u8) as nat, 1),
    {
        let u: u8 = #[verifier::truncate] (v as u8);
        self.write_u8(u);
    }

    /// Appends a signed 16-bit value, two's complement, big-endian.
    pub fn write_i16(&mut self, v: i16)
        ensures
            final(self).bytes() == write_uint(old(self).bytes(), (v as u16) as nat, 2),
    {
        let u: u16 = #[verifier::truncate] (v as u16);
        self.write_u16(u);
    }

    /// Appends a signed 32-bit value, two's complement, big-endian.
    pub fn write_i32(&mut self, v: i32)
        ensures
            final(self).bytes() == write_uint(old(self).bytes(), (v as u32) as nat, 4),
    {
        let u: u32 = #[verifier::truncate] (v as u32);
        self.write_u32(u);
    }

    /// Appends a signed 64-bit value, two's complement, big-endian.
    pub fn write_i64(&mut self, v: i64)
        ensures
            final(self).bytes() == write_uint(old(self).bytes(), (v as u64) as nat, 8),
    {
        let u: u64 = #[verifier::truncate] (v as u64);
        self.write_u64(u);
    }

    /// Appends a boolean as one byte: 1 for `true`, 0 for `false`.
    pub fn write_bool(&mut self, v: bool)
        ensures
            final(self).bytes() == write_uint(
                old(self).bytes(),
                if v {
                    1nat
                } else {
                    0nat
                },
                1,
            ),
    {
        self.write_u8(if v {
            1
        } else {
            0
        });
    }

    /// Appends a single-byte character.
    pub fn write_char(&mut self, v: u8)
        ensures
            final(self).bytes() == write_uint(old(self).bytes(), v as nat, 1),
    {
        self.write_u8(v);
    }

    /// Appends a 16-bit character, big-endian, 2-byte aligned.
    pub fn write_char16(&mut self, v: u16)
        ensures
            final(self).bytes() == write_uint(old(self).bytes(), v as nat, 2),
    {
        self.write_u16(v);
    }

    /// Appends a 32-bit float given as its IEEE 754 bit pattern.
    pub fn write_f32_bits(&mut self, v: u32)
        ensures
            final(self).bytes() == write_uint(old(self).bytes(), v as nat, 4),
    {
        self.write_u32(v);
    }

    /// Appends a 64-bit float given as its IEEE 754 bit pattern.
    pub fn write_f64_bits(&mut self, v: u64)
        ensures
            final(self).bytes() == write_uint(old(self).bytes(), v as nat, 8),
    {
        self.write_u64(v);
    }

    /// Appends a length-prefixed byte string: a 4-byte length counting the
    /// content plus a terminating zero byte, the content, then the zero.
    /// An empty string is written as a valid encoding of length 1.
    pub fn write_string(&mut self, content: &Vec<u8>) -> (r: Result<(), CodecError>)
        ensures
            content@.len() + 1 < wire::pow256(4) ==> r is Ok && final(self).bytes()
                == wire::write_str_bytes(old(self).bytes(), content@),
            content@.len() + 1 >= wire::pow256(4) ==> r == Err::<(), CodecError>(
                CodecError::OversizedInput,
            ) && *final(self) == *old(self),
    {
        proof {
            assert(wire::pow256(4) == 0x1_0000_0000) by {
                reveal_with_fuel(wire::pow256, 5);
            }
        }
        let n = content.len();
        if n >= 0xFFFF_FFFFusize {
            return Err(CodecError::OversizedInput);
        }
        pad_to(&mut self.buf, 4);
        push_be(&mut self.buf, (n as u64) + 1, 4);
        let ghost mid = self.buf@;
        let mut i: usize = 0;
        while i < n
            invariant
                i <= n,
                n == content@.len(),
                self.buf@ =~= mid + content@.subrange(0, i as int),
            decreases n - i,
        {
            self.buf.push(content[i]);
            proof {
                assert(self.buf@ =~= mid + content@.subrange(0, i + 1));
            }
            i = i + 1;
        }
        self.buf.push(0u8);
        proof {
            assert(content@.subrange(0, n as int) =~= content@);
            assert(self.buf@ =~= wire::write_str_bytes(old(self).bytes(), content@));
        }
        Ok(())
    }

    /// Appends a length-prefixed wide string: a 4-byte code-unit count,
    /// then each 16-bit code unit big-endian. An empty wide string is
    /// written as a valid encoding with count 0.
    pub fn write_wide_string(&mut self, content: &Vec<u16>) -> (r: Result<(), CodecError>)
        ensures
            content@.len() < wire::pow256(4) ==> r is Ok && final(self).bytes()
                == wire::write_wstr_bytes(old(self).bytes(), content@),
            content@.len() >= wire::pow256(4) ==> r == Err::<(), CodecError>(
                CodecError::OversizedInput,
            ) && *final(self) == *old(self),
    {
        proof {
            assert(wire::pow256(4) == 0x1_0000_0000) by {
                reveal_with_fuel(wire::pow256, 5);
            }
        }
        let n = content.len();
        if n > 0xFFFF_FFFFusize {
            return Err(CodecError::OversizedInput);
        }
        pad_to(&mut self.buf, 4);
        push_be(&mut self.buf, n as u64, 4);
        let ghost mid = self.buf@;
        let mut i: usize = 0;
        while i < n
            invariant
                i <= n,
                n == content@.len(),
                self.buf@ =~= mid + wire::wstr_elems(content@.subrange(0, i as int)),
            decreases n - i,
        {
            push_be(&mut self.buf, content[i] as u64, 2);
            proof {
                let part = content@.subrange(0, i + 1);
                assert(part.drop_last() =~= content@.subrange(0, i as int));
                assert(self.buf@ =~= mid + wire::wstr_elems(part));
            }
            i = i + 1;
        }
        proof {
            assert(content@.subrange(0, n as int) =~= content@);
            assert(self.buf@ =~= wire::write_wstr_bytes(old(self).bytes(), content@));
        }
        Ok(())
    }
}

impl ReadCursor {
    /// The bytes the cursor reads from.
    pub closed spec fn bytes(&self) -> Seq<u8> {
        self.buf@
    }

    /// The current read offset.
    pub closed spec fn position(&self) -> int {
        self.pos as int
    }

    /// The cursor is well formed: its offset never passes the end.
    pub open spec fn wf(&self) -> bool {
        0 <= self.position() <= self.bytes().len()
    }

    /// Creates a read cursor over a copy of `data`, at offset 0.
    pub fn read_new(data: &Vec<u8>) -> (c: ReadCursor)
        ensures
            c.bytes() == data@,
            c.position() == 0,
            c.wf(),
    {
        let buf = copy_range(data, 0, data.len());
        proof {
            assert(data@.subrange(0, data@.len() as int) =~= data@);
        }
        ReadCursor { buf, pos: 0 }
    }

    /// Number of bytes left between the offset and the end.
    pub fn remaining(&self) -> (n: usize)
        requires
            self.wf(),
        ensures
            n == self.bytes().len() - self.position(),
    {
        self.buf.len() - self.pos
    }

    /// Reads the next `n`-byte unsigned field, padding first.
    fn read_uint_n(&mut self, n: usize) -> (r: Result<u64, CodecError>)
        requires
            old(self).wf(),
            1 <= n <= 8,
        ensures
            final(self).wf(),
            final(self).bytes() == old(self).bytes(),
            match read_uint(old(self).bytes(), old(self).position(), n as nat) {
                Some((v, p)) => r matches Ok(x) && x as nat == v && (x as nat) < wire::pow256(
                    n as nat,
                ) && final(self).position() == p,
                None => r == Err::<u64, CodecError>(CodecError::MalformedInput) && final(self).position() == old(self).position(),
            },
    {
        let len = self.buf.len();
        let rem = len - self.pos;
        let m = self.pos % n;
        let pad = if m == 0 {
            0
        } else {
            n - m
        };
        if rem < pad + n {
            return Err(CodecError::MalformedInput);
        }
        let p = self.pos + pad;
        let v = read_be(&self.buf, p, n);
        self.pos = p + n;
        Ok(v)
    }

    /// Reads an unsigned 8-bit value.
    pub fn read_u8(&mut self) -> (r: Result<u8, CodecError>)
        requires
            old(self).wf(),
        ensures
            final(self).wf(),
            final(self).bytes() == old(self).bytes(),
            match read_uint(old(self).bytes(), old(self).position(), 1) {
                Some((v, p)) => r matches Ok(x) && x as nat == v && final(self).position() == p,
                None => r == Err::<u8, CodecError>(CodecError::MalformedInput) && final(self).position() == old(self).position(),
            },
    {
        proof {
            assert(wire::pow256(1) == 256) by {
                reveal_with_fuel(wire::pow256, 2);
            }
        }
        match self.read_uint_n(1) {
            Ok(v) => Ok(v as u8),
            Err(e) => Err(e),
        }
    }

    /// Reads an unsigned 16-bit value.
    pub fn read_u16(&mut self) -> (r: Result<u16, CodecError>)
        requires
            old(self).wf(),
        ensures
            final(self).wf(),
            final(self).bytes() == old(self).bytes(),
            match read_uint(old(self).bytes(), old(self).position(), 2) {
                Some((v, p)) => r matches Ok(x) && x as nat == v && final(self).position() == p,
                None => r == Err::<u16, CodecError>(CodecError::MalformedInput) && final(self).position() == old(self).position(),
            },
    {
        proof {
            assert(wire::pow256(2) == 0x1_0000) by {
                reveal_with_fuel(wire::pow256, 3);
            }
        }
        match self.read_uint_n(2) {
            Ok(v) => Ok(v as u16),
            Err(e) => Err(e),
        }
    }

    /// Reads an unsigned 32-bit value.
    pub fn read_u32(&mut self) -> (r: Result<u32, CodecError>)
        requires
            old(self).wf(),
        ensures
            final(self).wf(),
            final(self).bytes() == old(self).bytes(),
            match read_uint(old(self).bytes(), old(self).position(), 4) {
                Some((v, p)) => r matches Ok(x) && x as nat == v && final(self).position() == p,
                None => r == Err::<u32, CodecError>(CodecError::MalformedInput) && final(self).position() == old(self).position(),
            },
    {
        proof {
            assert(wire::pow256(4) == 0x1_0000_0000) by {
                reveal_with_fuel(wire::pow256, 5);
            }
        }
        match self.read_uint_n(4) {
            Ok(v) => Ok(v as u32),
            Err(e) => Err(e),
        }
    }

    /// Reads an unsigned 64-bit value.
    pub fn read_u64(&mut self) -> (r: Result<u64, CodecError>)
        requires
            old(self).wf(),
        ensures
            final(self).wf(),
            final(self).bytes() == old(self).bytes(),
            match read_uint(old(self).bytes(), old(self).position(), 8) {
                Some((v, p)) => r matches Ok(x) && x as nat == v && final(self).position() == p,
                None => r == Err::<u64, CodecError>(CodecError::MalformedInput) && final(self).position() == old(self).position(),
            },
    {
        self.read_uint_n(8)
    }

    /// Reads a signed 8-bit value (two's complement).
    pub fn read_i8(&mut self) -> (r: Result<i8, CodecError>)
        requires
            old(self).wf(),
        ensures
            final(self).wf(),
            final(self).bytes() == old(self).bytes(),
            match read_uint(old(self).bytes(), old(self).position(), 1) {
                Some((v, p)) => r matches Ok(x) && x == ((v as u8) as i8) && final(self).position() == p,
                None => r == Err::<i8, CodecError>(CodecError::MalformedInput) && final(self).position() == old(self).position(),
            },
    {
        match self.read_u8() {
            Ok(v) => Ok(#[verifier::truncate] (v as i8)),
            Err(e) => Err(e),
        }
    }

    /// Reads a signed 16-bit value (two's complement).
    pub fn read_i16(&mut self) -> (r: Result<i16, CodecError>)
        requires
            old(self).wf(),
        ensures
            final(self).wf(),
            final(self).bytes() == old(self).bytes(),
            match read_uint(old(self).bytes(), old(self).position(), 2) {
                Some((v, p)) => r matches Ok(x) && x == ((v as u16) as i16) && final(self).position() == p,
                None => r == Err::<i16, CodecError>(CodecError::MalformedInput) && final(self).position() == old(self).position(),
            },
    {
        match self.read_u16() {
            Ok(v) => Ok(#[verifier::truncate] (v as i16)),
            Err(e) => Err(e),
        }
    }

    /// Reads a signed 32-bit value (two's complement).
    pub fn read_i32(&mut self) -> (r: Result<i32, CodecError>)
        requires
            old(self).wf(),
        ensures
            final(self).wf(),
            final(self).bytes() == old(self).bytes(),
            match read_uint(old(self).bytes(), old(self).position(), 4) {
                Some((v, p)) => r matches Ok(x) && x == ((v as u32) as i32) && final(self).position() == p,
                None => r == Err::<i32, CodecError>(CodecError::MalformedInput) && final(self).position() == old(self).position(),
            },
    {
        match self.read_u32() {
            Ok(v) => Ok(#[verifier::truncate] (v as i32)),
            Err(e) => Err(e),
        }
    }

    /// Reads a signed 64-bit value (two's complement).
    pub fn read_i64(&mut self) -> (r: Result<i64, CodecError>)
        requires
            old(self).wf(),
        ensures
            final(self).wf(),
            final(self).bytes() == old(self).bytes(),
            match read_uint(old(self).bytes(), old(self).position(), 8) {
                Some((v, p)) => r matches Ok(x) && x == ((v as u64) as i64) && final(self).position() == p,
                None => r == Err::<i64, CodecError>(CodecError::MalformedInput) && final(self).position() == old(self).position(),
            },
    {
        match self.read_u64() {
            Ok(v) => Ok(#[verifier::truncate] (v as i64)),
            Err(e) => Err(e),
        }
    }

    /// Reads a boolean byte: 0 is `false`, 1 is `true`, anything else is
    /// malformed and leaves the cursor unmoved.
    pub fn read_bool(&mut self) -> (r: Result<bool, CodecError>)
        requires
            old(self).wf(),
        ensures
            final(self).wf(),
            final(self).bytes() == old(self).bytes(),
            match read_bool_spec(old(self).bytes(), old(self).position()) {
                Some((b, p)) => r matches Ok(x) && x == b && final(self).position() == p,
                None => r == Err::<bool, CodecError>(CodecError::MalformedInput) && final(self).position() == old(self).position(),
            },
    {
        let saved = self.pos;
        match self.read_u8() {
            Ok(0u8) => Ok(false),
            Ok(1u8) => Ok(true),
            Ok(_) => {
                self.pos = saved;
                Err(CodecError::MalformedInput)
            },
            Err(e) => Err(e),
        }
    }

    /// Reads a single-byte character.
    pub fn read_char(&mut self) -> (r: Result<u8, CodecError>)
        requires
            old(self).wf(),
        ensures
            final(self).wf(),
            final(self).bytes() == old(self).bytes(),
            match read_uint(old(self).bytes(), old(self).position(), 1) {
                Some((v, p)) => r matches Ok(x) && x as nat == v && final(self).position() == p,
                None => r == Err::<u8, CodecError>(CodecError::MalformedInput) && final(self).position() == old(self).position(),
            },
    {
        self.read_u8()
    }

    /// Reads a 16-bit character.
    pub fn read_char16(&mut self) -> (r: Result<u16, CodecError>)
        requires
            old(self).wf(),
        ensures
            final(self).wf(),
            final(self).bytes() == old(self).bytes(),
            match read_uint(old(self).bytes(), old(self).position(), 2) {
                Some((v, p)) => r matches Ok(x) && x as nat == v && final(self).position() == p,
                None => r == Err::<u16, CodecError>(CodecError::MalformedInput) && final(self).position() == old(self).position(),
            },
    {
        self.read_u16()
    }

    /// Reads the IEEE 754 bit pattern of a 32-bit float.
    pub fn read_f32_bits(&mut self) -> (r: Result<u32, CodecError>)
        requires
            old(self).wf(),
        ensures
            final(self).wf(),
            final(self).bytes() == old(self).bytes(),
            match read_uint(old(self).bytes(), old(self).position(), 4) {
                Some((v, p)) => r matches Ok(x) && x as nat == v && final(self).position() == p,
                None => r == Err::<u32, CodecError>(CodecError::MalformedInput) && final(self).position() == old(self).position(),
            },
    {
        self.read_u32()
    }

    /// Reads the IEEE 754 bit pattern of a 64-bit float.
    pub fn read_f64_bits(&mut self) -> (r: Result<u64, CodecError>)
        requires
            old(self).wf(),
        ensures
            final(self).wf(),
            final(self).bytes() == old(self).bytes(),
            match read_uint(old(self).bytes(), old(self).position(), 8) {
                Some((v, p)) => r matches Ok(x) && x as nat == v && final(self).position() == p,
                None => r == Err::<u64, CodecError>(CodecError::MalformedInput) && final(self).position() == old(self).position(),
            },
    {
        self.read_u64()
    }

    /// Reads a length-prefixed byte string, yielding the content without
    /// its terminating byte, together with its length.
    pub fn read_string(&mut self) -> (r: Result<(Vec<u8>, usize), CodecError>)
        requires
            old(self).wf(),
        ensures
            final(self).wf(),
            final(self).bytes() == old(self).bytes(),
            match read_str_bytes(old(self).bytes(), old(self).position()) {
                Some((c, p)) => r matches Ok(x) && x.0@ == c && x.1 == c.len() && final(self).position() == p,
                None => r matches Err(e) && e == CodecError::MalformedInput && final(self).position() == old(self).position(),
            },
    {
        let saved = self.pos;
        let l64 = match self.read_uint_n(4) {
            Ok(v) => v,
            Err(e) => {
                return Err(e);
            },
        };
        let rem = self.buf.len() - self.pos;
        if l64 == 0 || l64 > rem as u64 {
            self.pos = saved;
            return Err(CodecError::MalformedInput);
        }
        let l = l64 as usize;
        let content = copy_range(&self.buf, self.pos, self.pos + l - 1);
        self.pos = self.pos + l;
        Ok((content, l - 1))
    }

    /// Reads a length-prefixed wide string, yielding the code units and
    /// their count.
    pub fn read_wide_string(&mut self) -> (r: Result<(Vec<u16>, usize), CodecError>)
        requires
            old(self).wf(),
        ensures
            final(self).wf(),
            final(self).bytes() == old(self).bytes(),
            match read_wstr_bytes(old(self).bytes(), old(self).position()) {
                Some((ws, p)) => r matches Ok(x) && x.0@ == ws && x.1 == ws.len() && final(self).position() == p,
                None => r matches Err(e) && e == CodecError::MalformedInput && final(self).position() == old(self).position(),
            },
    {
        let saved = self.pos;
        let k64 = match self.read_uint_n(4) {
            Ok(v) => v,
            Err(e) => {
                return Err(e);
            },
        };
        proof {
            assert(wire::pow256(4) == 0x1_0000_0000) by {
                reveal_with_fuel(wire::pow256, 5);
            }
        }
        let rem = self.buf.len() - self.pos;
        if k64 * 2 > rem as u64 {
            self.pos = saved;
            return Err(CodecError::MalformedInput);
        }
        let k = k64 as usize;
        let p = self.pos;
        let blen = self.buf.len();
        let ghost target = Seq::new(
            k as nat,
            |i: int| wire::be_val(self.buf@.subrange(p + 2 * i, p + 2 * i + 2)) as u16,
        );
        let mut out: Vec<u16> = Vec::new();
        let mut i: usize = 0;
        while i < k
            invariant
                i <= k,
                blen == self.buf@.len(),
                p + 2 * k <= blen,
                out@.len() == i,
                forall|j: int| 0 <= j < i ==> out@[j] == target[j],
                target == Seq::new(
                    k as nat,
                    |i: int| wire::be_val(self.buf@.subrange(p + 2 * i, p + 2 * i + 2)) as u16,
                ),
            decreases k - i,
        {
            let u = read_be(&self.buf, p + 2 * i, 2);
            proof {
                assert(wire::pow256(2) == 0x1_0000) by {
                    reveal_with_fuel(wire::pow256, 3);
                }
            }
            out.push(u as u16);
            i = i + 1;
        }
        self.pos = p + 2 * k;
        proof {
            assert(out@ =~= target);
        }
        Ok((out, k))
    }
}

} // verus!
