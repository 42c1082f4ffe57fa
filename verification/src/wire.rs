//! The binary representation underlying the codec: big-endian base-256
//! encodings of unsigned values, alignment padding, and the byte-level
//! layouts of padded integers, strings and wide strings.

use vstd::prelude::*;

verus! {

/// 256 to the power `n`: the number of distinct values of an `n`-byte field.
pub open spec fn pow256(n: nat) -> nat
    decreases n,
{
    if n == 0 {
        1
    } else {
        256 * pow256((n - 1) as nat)
    }
}

/// The `n` big-endian base-256 digits of `v` (most significant first);
/// `v` is reduced modulo `pow256(n)`.
pub open spec fn be_bytes(v: nat, n: nat) -> Seq<u8>
    decreases n,
{
    if n == 0 {
        Seq::empty()
    } else {
        be_bytes(v / 256, (n - 1) as nat).push((v % 256) as u8)
    }
}

/// The unsigned value read big-endian from all of `s`.
pub open spec fn be_val(s: Seq<u8>) -> nat
    decreases s.len(),
{
    if s.len() == 0 {
        0
    } else {
        be_val(s.drop_last()) * 256 + s.last() as nat
    }
}

pub proof fn lemma_pow256_pos(n: nat)
    ensures
        pow256(n) >= 1,
    decreases n,
{
    if n > 0 {
        lemma_pow256_pos((n - 1) as nat);
    }
}

pub proof fn lemma_be_bytes_len(v: nat, n: nat)
    ensures
        be_bytes(v, n).len() == n,
    decreases n,
{
    if n > 0 {
        lemma_be_bytes_len(v / 256, (n - 1) as nat);
    }
}

/// Decoding inverts encoding for every value that fits in `n` bytes.
pub proof fn lemma_be_round_trip(v: nat, n: nat)
    requires
        v < pow256(n),
    ensures
        be_val(be_bytes(v, n)) == v,
    decreases n,
{
    if n > 0 {
        let q = v / 256;
        let r = v % 256;
        let p = pow256((n - 1) as nat);
        lemma_pow256_pos((n - 1) as nat);
        assert(q < p) by (nonlinear_arith)
            requires
                v < 256 * p,
                q == v / 256,
                p >= 1,
        ;
        lemma_be_round_trip(q, (n - 1) as nat);
        let tail = be_bytes(q, (n - 1) as nat);
        let whole = tail.push((r as u8));
        assert(whole.drop_last() =~= tail);
        assert(be_val(whole) == be_val(tail) * 256 + r);
        assert(q * 256 + r == v) by (nonlinear_arith)
            requires
                q == v / 256,
                r == v % 256,
        ;
    }
}

/// Number of padding bytes needed to align `pos` to `align`.
pub open spec fn pad_len(pos: int, align: int) -> int
    recommends
        align > 0,
{
    if pos % align == 0 {
        0
    } else {
        align - pos % align
    }
}

/// A run of `n` zero bytes.
pub open spec fn zeros(n: int) -> Seq<u8> {
    Seq::new(n as nat, |i: int| 0u8)
}

/// `s` extended with zero bytes until its length is a multiple of `align`.
pub open spec fn padded(s: Seq<u8>, align: int) -> Seq<u8> {
    s + zeros(pad_len(s.len() as int, align))
}

/// The first position at or after `pos` that is a multiple of `align`.
pub open spec fn align_up(pos: int, align: int) -> int {
    pos + pad_len(pos, align)
}

/// The stream after appending an `n`-byte unsigned field holding `v`,
/// padded to `n`-byte alignment first.
pub open spec fn write_uint(s: Seq<u8>, v: nat, n: nat) -> Seq<u8> {
    padded(s, n as int) + be_bytes(v, n)
}

/// Reading an `n`-byte unsigned field at `pos`: skip padding, then take
/// `n` bytes; `None` when fewer bytes than required remain.
pub open spec fn read_uint(s: Seq<u8>, pos: int, n: nat) -> Option<(nat, int)> {
    let p = align_up(pos, n as int);
    if p + n <= s.len() {
        Some((be_val(s.subrange(p, p + n)), p + n))
    } else {
        None
    }
}

/// The stream after appending a string field: a 4-byte length counting the
/// content plus its terminating zero byte, then the content, then the zero.
pub open spec fn write_str_bytes(s: Seq<u8>, c: Seq<u8>) -> Seq<u8> {
    write_uint(s, c.len() + 1, 4) + c + seq![0u8]
}

/// Reading a string field: a 4-byte length `l >= 1`, then `l` bytes of
/// which the last is the terminator and the first `l - 1` are the content.
pub open spec fn read_str_bytes(s: Seq<u8>, pos: int) -> Option<(Seq<u8>, int)> {
    match read_uint(s, pos, 4) {
        Some((l, p)) => if 1 <= l && p + l <= s.len() {
            Some((s.subrange(p, p + l - 1), p + l))
        } else {
            None
        },
        None => None,
    }
}

/// The concatenated 2-byte big-endian encodings of the code units of `ws`.
pub open spec fn wstr_elems(ws: Seq<u16>) -> Seq<u8>
    decreases ws.len(),
{
    if ws.len() == 0 {
        Seq::empty()
    } else {
        wstr_elems(ws.drop_last()) + be_bytes(ws.last() as nat, 2)
    }
}

/// The stream after appending a wide-string field: a 4-byte code-unit
/// count, then the code units, each 2 bytes big-endian.
pub open spec fn write_wstr_bytes(s: Seq<u8>, ws: Seq<u16>) -> Seq<u8> {
    write_uint(s, ws.len(), 4) + wstr_elems(ws)
}

/// Reading a wide-string field: a 4-byte count `k`, then `k` 2-byte
/// big-endian code units.
pub open spec fn read_wstr_bytes(s: Seq<u8>, pos: int) -> Option<(Seq<u16>, int)> {
    match read_uint(s, pos, 4) {
        Some((k, p)) => if p + 2 * k <= s.len() {
            Some(
                (
                    Seq::new(k, |i: int| be_val(s.subrange(p + 2 * i, p + 2 * i + 2)) as u16),
                    p + 2 * k,
                ),
            )
        } else {
            None
        },
        None => None,
    }
}

pub proof fn lemma_pow256_mono(a: nat, b: nat)
    requires
        a <= b,
    ensures
        pow256(a) <= pow256(b),
    decreases b,
{
    if a < b {
        lemma_pow256_mono(a, (b - 1) as nat);
        lemma_pow256_pos((b - 1) as nat);
    }
}

/// Appending to a stream leaves the original bytes in place.
pub proof fn lemma_concat_prefix(a: Seq<u8>, b: Seq<u8>)
    ensures
        (a + b).len() == a.len() + b.len(),
        (a + b).subrange(0, a.len() as int) == a,
{
    assert((a + b).subrange(0, a.len() as int) =~= a);
}

/// The appended part of a concatenation, read back as a subrange.
pub proof fn lemma_concat_suffix(a: Seq<u8>, b: Seq<u8>)
    ensures
        (a + b).subrange(a.len() as int, a.len() + b.len() as int) == b,
{
    assert((a + b).subrange(a.len() as int, a.len() + b.len() as int) =~= b);
}

/// A subrange lying inside a prefix is the same in any extension.
pub proof fn lemma_subrange_of_prefix(s1: Seq<u8>, s2: Seq<u8>, a: int, b: int)
    requires
        s1.len() <= s2.len(),
        s2.subrange(0, s1.len() as int) == s1,
        0 <= a <= b <= s1.len(),
    ensures
        s2.subrange(a, b) == s1.subrange(a, b),
{
    assert forall|i: int| 0 <= i < b - a implies s2.subrange(a, b)[i] == s1.subrange(a, b)[i] by {
        assert(s1[a + i] == s2.subrange(0, s1.len() as int)[a + i]);
    }
    assert(s2.subrange(a, b) =~= s1.subrange(a, b));
}

/// Writing a field only appends: the old stream is a prefix of the new one.
pub proof fn lemma_write_uint_prefix(s: Seq<u8>, v: nat, n: nat)
    requires
        1 <= n,
    ensures
        write_uint(s, v, n).len() >= s.len(),
        write_uint(s, v, n).subrange(0, s.len() as int) == s,
{
    lemma_be_bytes_len(v, n);
    assert(write_uint(s, v, n).subrange(0, s.len() as int) =~= s);
}

/// Reading an integer field right after it was written yields the value
/// written and leaves the position at the end of the stream.
pub proof fn lemma_write_uint_round_trip(s: Seq<u8>, v: nat, n: nat)
    requires
        1 <= n,
        v < pow256(n),
    ensures
        ({
            let s2 = write_uint(s, v, n);
            read_uint(s2, s.len() as int, n) == Some((v, s2.len() as int))
        }),
{
    let s2 = write_uint(s, v, n);
    let p = align_up(s.len() as int, n as int);
    lemma_be_bytes_len(v, n);
    assert(padded(s, n as int).len() == p);
    lemma_concat_suffix(padded(s, n as int), be_bytes(v, n));
    assert(s2.subrange(p, p + n) == be_bytes(v, n));
    lemma_be_round_trip(v, n);
}

/// Reading an integer field is unaffected by bytes appended later.
pub proof fn lemma_read_uint_prefix(s1: Seq<u8>, s2: Seq<u8>, pos: int, n: nat)
    requires
        1 <= n,
        0 <= pos,
        s1.len() <= s2.len(),
        s2.subrange(0, s1.len() as int) == s1,
        read_uint(s1, pos, n) is Some,
    ensures
        read_uint(s2, pos, n) == read_uint(s1, pos, n),
{
    let p = align_up(pos, n as int);
    lemma_subrange_of_prefix(s1, s2, p, p + n);
}

/// Reading a string field right after it was written yields the content
/// written and its length.
pub proof fn lemma_write_str_round_trip(s: Seq<u8>, c: Seq<u8>)
    requires
        c.len() + 1 < pow256(4),
    ensures
        ({
            let s2 = write_str_bytes(s, c);
            read_str_bytes(s2, s.len() as int) == Some((c, s2.len() as int))
        }),
{
    let w1 = write_uint(s, c.len() + 1, 4);
    let tail = c + seq![0u8];
    let s2 = write_str_bytes(s, c);
    assert(s2 == w1 + tail);
    lemma_write_uint_round_trip(s, c.len() + 1, 4);
    lemma_concat_prefix(w1, tail);
    lemma_read_uint_prefix(w1, s2, s.len() as int, 4);
    let l = (c.len() + 1) as int;
    let p = w1.len() as int;
    assert(s2.subrange(p, p + l - 1) =~= c);
}

/// Reading a string field is unaffected by bytes appended later.
pub proof fn lemma_read_str_prefix(s1: Seq<u8>, s2: Seq<u8>, pos: int)
    requires
        0 <= pos,
        s1.len() <= s2.len(),
        s2.subrange(0, s1.len() as int) == s1,
        read_str_bytes(s1, pos) is Some,
    ensures
        read_str_bytes(s2, pos) == read_str_bytes(s1, pos),
{
    lemma_read_uint_prefix(s1, s2, pos, 4);
    let (l, p) = read_uint(s1, pos, 4).unwrap();
    lemma_subrange_of_prefix(s1, s2, p, p + l - 1);
}

pub proof fn lemma_wstr_elems_len(ws: Seq<u16>)
    ensures
        wstr_elems(ws).len() == 2 * ws.len(),
    decreases ws.len(),
{
    if ws.len() > 0 {
        lemma_wstr_elems_len(ws.drop_last());
        lemma_be_bytes_len(ws.last() as nat, 2);
    }
}

/// The bytes of the `i`-th code unit inside an encoded wide string.
pub proof fn lemma_wstr_elems_at(ws: Seq<u16>, i: int)
    requires
        0 <= i < ws.len(),
    ensures
        wstr_elems(ws).subrange(2 * i, 2 * i + 2) == be_bytes(ws[i] as nat, 2),
    decreases ws.len(),
{
    lemma_wstr_elems_len(ws);
    lemma_wstr_elems_len(ws.drop_last());
    lemma_be_bytes_len(ws.last() as nat, 2);
    if i == ws.len() - 1 {
        lemma_concat_suffix(wstr_elems(ws.drop_last()), be_bytes(ws.last() as nat, 2));
    } else {
        lemma_wstr_elems_at(ws.drop_last(), i);
        lemma_concat_prefix(wstr_elems(ws.drop_last()), be_bytes(ws.last() as nat, 2));
        lemma_subrange_of_prefix(
            wstr_elems(ws.drop_last()),
            wstr_elems(ws),
            2 * i,
            2 * i + 2,
        );
    }
}

/// Reading a wide-string field right after it was written yields the code
/// units written.
pub proof fn lemma_write_wstr_round_trip(s: Seq<u8>, ws: Seq<u16>)
    requires
        ws.len() < pow256(4),
    ensures
        ({
            let s2 = write_wstr_bytes(s, ws);
            read_wstr_bytes(s2, s.len() as int) == Some((ws, s2.len() as int))
        }),
{
    let w1 = write_uint(s, ws.len(), 4);
    let elems = wstr_elems(ws);
    let s2 = write_wstr_bytes(s, ws);
    lemma_wstr_elems_len(ws);
    lemma_write_uint_round_trip(s, ws.len(), 4);
    lemma_concat_prefix(w1, elems);
    lemma_read_uint_prefix(w1, s2, s.len() as int, 4);
    let k = ws.len() as int;
    let p = w1.len() as int;
    let got = Seq::new(ws.len(), |i: int| be_val(s2.subrange(p + 2 * i, p + 2 * i + 2)) as u16);
    assert forall|i: int| 0 <= i < k implies got[i] == ws[i] by {
        lemma_concat_suffix(w1, elems);
        assert(s2.subrange(p, p + 2 * k) == elems);
        lemma_wstr_elems_at(ws, i);
        assert(s2.subrange(p + 2 * i, p + 2 * i + 2) =~= elems.subrange(2 * i, 2 * i + 2));
        assert(pow256(2) == 65536) by {
            reveal_with_fuel(pow256, 3);
        }
        lemma_be_round_trip(ws[i] as nat, 2);
    }
    assert(got =~= ws);
}

/// Appends the `n`-byte big-endian encoding of `v` (reduced mod `pow256(n)`).
pub fn push_be(out: &mut Vec<u8>, v: u64, n: usize)
    requires
        n <= 8,
    ensures
        final(out)@ == old(out)@ + be_bytes(v as nat, n as nat),
    decreases n,
{
    if n == 0 {
        assert(old(out)@ + be_bytes(v as nat, 0) =~= old(out)@);
    } else {
        push_be(out, v / 256, n - 1);
        let b: u8 = (v % 256) as u8;
        out.push(b);
        assert(final(out)@ =~= old(out)@ + be_bytes(v as nat, n as nat));
    }
}

/// Reads the `n`-byte big-endian unsigned value at `start`.
pub fn read_be(buf: &Vec<u8>, start: usize, n: usize) -> (r: u64)
    requires
        n <= 8,
        start + n <= buf@.len(),
    ensures
        r as nat == be_val(buf@.subrange(start as int, start + n)),
        (r as nat) < pow256(n as nat),
{
    let mut acc: u64 = 0;
    let mut i: usize = 0;
    let blen = buf.len();
    proof {
        assert(buf@.subrange(start as int, start as int) =~= Seq::<u8>::empty());
    }
    while i < n
        invariant
            i <= n <= 8,
            start + n <= blen,
            blen == buf@.len(),
            acc as nat == be_val(buf@.subrange(start as int, start + i)),
            (acc as nat) < pow256(i as nat),
        decreases n - i,
    {
        let b = buf[start + i];
        proof {
            lemma_pow256_mono(i as nat, 7);
            assert(pow256(7) == 0x100_0000_0000_0000) by {
                reveal_with_fuel(pow256, 8);
            }
            let a = acc as nat;
            let p = pow256(i as nat);
            assert(a * 256 + 255 < p * 256) by (nonlinear_arith)
                requires
                    a < p,
            ;
            assert(p * 256 <= 0x100_0000_0000_0000 * 256) by (nonlinear_arith)
                requires
                    p <= 0x100_0000_0000_0000,
            ;
        }
        acc = acc * 256 + (b as u64);
        proof {
            let pre = buf@.subrange(start as int, start + i);
            let cur = buf@.subrange(start as int, start + i + 1);
            assert(cur.drop_last() =~= pre);
            assert(cur.last() == b);
        }
        i = i + 1;
    }
    acc
}

/// Appends zero bytes until the buffer length is a multiple of `align`.
pub fn pad_to(out: &mut Vec<u8>, align: usize)
    requires
        1 <= align,
    ensures
        final(out)@ == padded(old(out)@, align as int),
{
    let r = out.len() % align;
    if r == 0 {
        assert(final(out)@ =~= padded(old(out)@, align as int));
    } else {
        let k = align - r;
        let mut j: usize = 0;
        while j < k
            invariant
                j <= k,
                out@ =~= old(out)@ + zeros(j as int),
            decreases k - j,
        {
            out.push(0u8);
            proof {
                assert(zeros(j + 1) =~= zeros(j as int).push(0u8));
                assert(out@ =~= old(out)@ + zeros(j + 1));
            }
            j = j + 1;
        }
        assert(final(out)@ =~= padded(old(out)@, align as int));
    }
}

/// Appends all of `data` to `out`.
pub fn append_all(out: &mut Vec<u8>, data: &Vec<u8>)
    ensures
        final(out)@ == old(out)@ + data@,
{
    let n = data.len();
    let mut i: usize = 0;
    while i < n
        invariant
            i <= n,
            n == data@.len(),
            out@ =~= old(out)@ + data@.subrange(0, i as int),
        decreases n - i,
    {
        out.push(data[i]);
        proof {
            assert(out@ =~= old(out)@ + data@.subrange(0, i + 1));
        }
        i = i + 1;
    }
    proof {
        assert(data@.subrange(0, n as int) =~= data@);
    }
}

/// Copies `src[a..b]` into a fresh vector.
pub fn copy_range(src: &Vec<u8>, a: usize, b: usize) -> (r: Vec<u8>)
    requires
        a <= b <= src@.len(),
    ensures
        r@ == src@.subrange(a as int, b as int),
{
    let mut out: Vec<u8> = Vec::new();
    let mut i: usize = a;
    while i < b
        invariant
            a <= i <= b <= src@.len(),
            out@ =~= src@.subrange(a as int, i as int),
        decreases b - i,
    {
        out.push(src[i]);
        proof {
            assert(out@ =~= src@.subrange(a as int, i + 1));
        }
        i = i + 1;
    }
    assert(out@ =~= src@.subrange(a as int, b as int));
    out
}

/// Reading a wide-string field is unaffected by bytes appended later.
pub proof fn lemma_read_wstr_prefix(s1: Seq<u8>, s2: Seq<u8>, pos: int)
    requires
        0 <= pos,
        s1.len() <= s2.len(),
        s2.subrange(0, s1.len() as int) == s1,
        read_wstr_bytes(s1, pos) is Some,
    ensures
        read_wstr_bytes(s2, pos) == read_wstr_bytes(s1, pos),
{
    lemma_read_uint_prefix(s1, s2, pos, 4);
    let (k, p) = read_uint(s1, pos, 4).unwrap();
    let f1 = Seq::new(k, |i: int| be_val(s1.subrange(p + 2 * i, p + 2 * i + 2)) as u16);
    let f2 = Seq::new(k, |i: int| be_val(s2.subrange(p + 2 * i, p + 2 * i + 2)) as u16);
    assert forall|i: int| 0 <= i < k implies f2[i] == f1[i] by {
        lemma_subrange_of_prefix(s1, s2, p + 2 * i, p + 2 * i + 2);
    }
    assert(f2 =~= f1);
}

} // verus!

