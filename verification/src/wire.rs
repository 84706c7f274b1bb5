//! Big-endian fixed-width integers, as the frame and batch layouts use them.

use vstd::prelude::*;

verus! {

use vstd::arithmetic::div_mod::lemma_fundamental_div_mod;
use vstd::arithmetic::div_mod::lemma_multiply_divide_lt;

// ===== unsigned big-endian bytes =====

/// Powers of 256.
pub open spec fn pow256(k: nat) -> nat
    decreases k,
{
    if k == 0 {
        1
    } else {
        256 * pow256((k - 1) as nat)
    }
}

pub proof fn lemma_pow256_values()
    ensures
        pow256(1) == 0x100,
        pow256(2) == 0x1_0000,
        pow256(4) == 0x1_0000_0000,
        pow256(8) == 0x1_0000_0000_0000_0000,
{
    assert(pow256(0) == 1);
    assert(pow256(1) == 256 * pow256(0));
    assert(pow256(2) == 256 * pow256(1));
    assert(pow256(3) == 256 * pow256(2));
    assert(pow256(4) == 256 * pow256(3));
    assert(pow256(5) == 256 * pow256(4));
    assert(pow256(6) == 256 * pow256(5));
    assert(pow256(7) == 256 * pow256(6));
    assert(pow256(8) == 256 * pow256(7));
}

/// `k` bytes of `v`, most significant first; higher bytes of `v` are cut.
pub open spec fn be_enc(v: nat, k: nat) -> Seq<u8>
    decreases k,
{
    if k == 0 {
        Seq::empty()
    } else {
        be_enc(v / 256, (k - 1) as nat) + seq![(v % 256) as u8]
    }
}

/// The value of a big-endian byte sequence.
pub open spec fn be_dec(s: Seq<u8>) -> nat
    decreases s.len(),
{
    if s.len() == 0 {
        0
    } else {
        256 * be_dec(s.drop_last()) + (s.last() as nat)
    }
}

pub proof fn lemma_be_enc_len(v: nat, k: nat)
    ensures
        be_enc(v, k).len() == k,
    decreases k,
{
    if k > 0 {
        lemma_be_enc_len(v / 256, (k - 1) as nat);
    }
}

/// Reading back `k` big-endian bytes of a value below `pow256(k)` returns it.
pub proof fn lemma_be_roundtrip(v: nat, k: nat)
    requires
        v < pow256(k),
    ensures
        be_dec(be_enc(v, k)) == v,
    decreases k,
{
    if k == 0 {
    } else {
        let s = be_enc(v, k);
        lemma_be_enc_len(v / 256, (k - 1) as nat);
        assert(s.drop_last() =~= be_enc(v / 256, (k - 1) as nat));
        assert(s.last() == (v % 256) as u8);
        assert(v / 256 < pow256((k - 1) as nat)) by {
            lemma_multiply_divide_lt(v as int, 256, pow256((k - 1) as nat) as int);
        }
        lemma_be_roundtrip(v / 256, (k - 1) as nat);
        lemma_fundamental_div_mod(v as int, 256);
    }
}

/// Appends the low `k` bytes of `v`, most significant first.
pub fn be_push(out: &mut Vec<u8>, v: u64, k: usize)
    requires
        k <= 8,
    ensures
        final(out)@ == old(out)@ + be_enc(v as nat, k as nat),
    decreases k,
{
    if k == 0 {
        proof {
            assert(final(out)@ =~= old(out)@ + be_enc(v as nat, 0));
        }
    } else {
        be_push(out, v / 256, k - 1);
        out.push((v % 256) as u8);
        proof {
            assert(final(out)@ =~= old(out)@ + be_enc(v as nat, k as nat));
        }
    }
}

/// Reads `k` big-endian bytes at `pos`.
pub fn be_read(s: &[u8], pos: usize, k: usize) -> (r: u64)
    requires
        k <= 8,
        pos + k <= s@.len(),
    ensures
        r as nat == be_dec(s@.subrange(pos as int, pos + k)),
        (r as nat) < pow256(k as nat),
{
    let len: usize = s.len();
    let mut acc: u64 = 0;
    let mut i: usize = 0;
    proof {
        lemma_pow256_values();
        assert(s@.subrange(pos as int, pos as int).len() == 0);
        lemma_pow256_mono(k as nat, 8);
    }
    while i < k
        invariant
            k <= 8,
            pos + k <= s@.len(),
            len == s@.len(),
            i <= k,
            acc as nat == be_dec(s@.subrange(pos as int, pos + i)),
            (acc as nat) < pow256(i as nat),
            pow256(k as nat) <= pow256(8),
            pow256(8) == 0x1_0000_0000_0000_0000,
        decreases k - i,
    {
        proof {
            let t = s@.subrange(pos as int, pos + i + 1);
            assert(t.drop_last() =~= s@.subrange(pos as int, pos + i));
            assert(t.last() == s@[pos + i]);
            assert(pow256((i + 1) as nat) == 256 * pow256(i as nat));
            assert(pow256((i + 1) as nat) <= pow256(k as nat)) by {
                lemma_pow256_mono((i + 1) as nat, k as nat);
            }
            assert(256 * (acc as nat) + 256 <= 256 * pow256(i as nat)) by (nonlinear_arith)
                requires
                    (acc as nat) < pow256(i as nat),
            ;
        }
        acc = acc * 256 + (s[pos + i] as u64);
        i = i + 1;
    }
    proof {
        lemma_pow256_mono(k as nat, k as nat);
    }
    acc
}

pub proof fn lemma_pow256_mono(a: nat, b: nat)
    requires
        a <= b,
    ensures
        pow256(a) <= pow256(b),
    decreases b,
{
    if a < b {
        lemma_pow256_mono(a, (b - 1) as nat);
        assert(256 * pow256((b - 1) as nat) >= pow256((b - 1) as nat)) by (nonlinear_arith)
            requires
                pow256((b - 1) as nat) >= 0,
        ;
    }
}

// ===== two's-complement views of the signed fixed-width fields =====

/// The unsigned 64-bit cell that carries a signed 64-bit value.
pub open spec fn u64_of_i64(v: i64) -> nat {
    if v >= 0 {
        v as nat
    } else {
        (v + 0x1_0000_0000_0000_0000) as nat
    }
}

/// The unsigned 32-bit cell that carries a signed 32-bit value.
pub open spec fn u32_of_i32(v: i32) -> nat {
    if v >= 0 {
        v as nat
    } else {
        (v + 0x1_0000_0000) as nat
    }
}

/// The unsigned byte that carries a signed 8-bit value.
pub open spec fn u8_of_i8(v: i8) -> nat {
    if v >= 0 {
        v as nat
    } else {
        (v + 0x100) as nat
    }
}

/// The unsigned 16-bit cell that carries a signed 16-bit value.
pub open spec fn u16_of_i16(v: i16) -> nat {
    if v >= 0 {
        v as nat
    } else {
        (v + 0x1_0000) as nat
    }
}

/// The signed value a 64-bit cell carries.
pub open spec fn i64_of_u64(u: nat) -> int {
    if u < 0x8000_0000_0000_0000 {
        u as int
    } else {
        u - 0x1_0000_0000_0000_0000
    }
}

pub open spec fn i32_of_u32(u: nat) -> int {
    if u < 0x8000_0000 {
        u as int
    } else {
        u - 0x1_0000_0000
    }
}

pub open spec fn i8_of_u8(u: u8) -> int {
    if u < 0x80 {
        u as int
    } else {
        u - 0x100
    }
}

pub open spec fn i16_of_u16(u: nat) -> int {
    if u < 0x8000 {
        u as int
    } else {
        u - 0x1_0000
    }
}

pub proof fn lemma_i64_cell(v: i64)
    ensures
        u64_of_i64(v) < 0x1_0000_0000_0000_0000,
        i64_of_u64(u64_of_i64(v)) == v,
{
}

pub proof fn lemma_i32_cell(v: i32)
    ensures
        u32_of_i32(v) < 0x1_0000_0000,
        i32_of_u32(u32_of_i32(v)) == v,
{
}

pub proof fn lemma_i16_cell(v: i16)
    ensures
        u16_of_i16(v) < 0x1_0000,
        i16_of_u16(u16_of_i16(v)) == v,
{
}

/// `v` as its unsigned 64-bit cell.
pub fn u64_cell(v: i64) -> (r: u64)
    ensures
        r as nat == u64_of_i64(v),
{
    if v >= 0 {
        v as u64
    } else {
        ((v as i128) + 0x1_0000_0000_0000_0000) as u64
    }
}

pub fn u32_cell(v: i32) -> (r: u64)
    ensures
        r as nat == u32_of_i32(v),
{
    if v >= 0 {
        v as u64
    } else {
        ((v as i64) + 0x1_0000_0000) as u64
    }
}

pub fn u16_cell(v: i16) -> (r: u64)
    ensures
        r as nat == u16_of_i16(v),
{
    if v >= 0 {
        v as u64
    } else {
        ((v as i64) + 0x1_0000) as u64
    }
}

/// The signed value of a 64-bit cell.
pub fn i64_cell(u: u64) -> (r: i64)
    ensures
        r as int == i64_of_u64(u as nat),
{
    if u < 0x8000_0000_0000_0000 {
        u as i64
    } else {
        ((u as i128) - 0x1_0000_0000_0000_0000) as i64
    }
}

pub fn i32_cell(u: u64) -> (r: i32)
    requires
        u < 0x1_0000_0000,
    ensures
        r as int == i32_of_u32(u as nat),
{
    if u < 0x8000_0000 {
        u as i32
    } else {
        ((u as i64) - 0x1_0000_0000) as i32
    }
}

pub fn i16_cell(u: u64) -> (r: i16)
    requires
        u < 0x1_0000,
    ensures
        r as int == i16_of_u16(u as nat),
{
    if u < 0x8000 {
        u as i16
    } else {
        ((u as i64) - 0x1_0000) as i16
    }
}

// ===== the signed fields in wire order =====

/// An `i64` field, big-endian.
pub open spec fn i64_enc(v: i64) -> Seq<u8> {
    be_enc(u64_of_i64(v), 8)
}

/// An `i32` field, big-endian.
pub open spec fn i32_enc(v: i32) -> Seq<u8> {
    be_enc(u32_of_i32(v), 4)
}

/// An `i16` field, big-endian.
pub open spec fn i16_enc(v: i16) -> Seq<u8> {
    be_enc(u16_of_i16(v), 2)
}

/// An `i8` field: one byte.
pub open spec fn i8_enc(v: i8) -> Seq<u8> {
    seq![u8_of_i8(v) as u8]
}

/// A `u32` field, big-endian.
pub open spec fn u32_enc(v: u32) -> Seq<u8> {
    be_enc(v as nat, 4)
}

pub fn push_i64(out: &mut Vec<u8>, v: i64)
    ensures
        final(out)@ == old(out)@ + i64_enc(v),
{
    let c: u64 = u64_cell(v);
    be_push(out, c, 8);
}

pub fn push_i32(out: &mut Vec<u8>, v: i32)
    ensures
        final(out)@ == old(out)@ + i32_enc(v),
{
    let c: u64 = u32_cell(v);
    be_push(out, c, 4);
}

pub fn push_i16(out: &mut Vec<u8>, v: i16)
    ensures
        final(out)@ == old(out)@ + i16_enc(v),
{
    let c: u64 = u16_cell(v);
    be_push(out, c, 2);
}

pub fn push_i8(out: &mut Vec<u8>, v: i8)
    ensures
        final(out)@ == old(out)@ + i8_enc(v),
{
    let b: u8 = if v >= 0 {
        v as u8
    } else {
        ((v as i16) + 0x100) as u8
    };
    out.push(b);
    proof {
        assert(final(out)@ =~= old(out)@ + i8_enc(v));
    }
}

pub fn i8_val(u: u8) -> (r: i8)
    ensures
        r as int == i8_of_u8(u),
{
    if u < 0x80 {
        u as i8
    } else {
        ((u as i16) - 0x100) as i8
    }
}

pub proof fn lemma_i8_roundtrip(v: i8)
    ensures
        i8_enc(v).len() == 1,
        i8_of_u8(i8_enc(v)[0]) == v,
{
}

pub fn push_u32(out: &mut Vec<u8>, v: u32)
    ensures
        final(out)@ == old(out)@ + u32_enc(v),
{
    be_push(out, v as u64, 4);
}

pub fn read_i64(s: &[u8], pos: usize) -> (r: i64)
    requires
        pos + 8 <= s@.len(),
    ensures
        r as int == i64_of_u64(be_dec(s@.subrange(pos as int, pos + 8))),
{
    let u: u64 = be_read(s, pos, 8);
    i64_cell(u)
}

pub fn read_i32(s: &[u8], pos: usize) -> (r: i32)
    requires
        pos + 4 <= s@.len(),
    ensures
        r as int == i32_of_u32(be_dec(s@.subrange(pos as int, pos + 4))),
{
    let u: u64 = be_read(s, pos, 4);
    proof {
        lemma_pow256_values();
    }
    i32_cell(u)
}

pub fn read_i16(s: &[u8], pos: usize) -> (r: i16)
    requires
        pos + 2 <= s@.len(),
    ensures
        r as int == i16_of_u16(be_dec(s@.subrange(pos as int, pos + 2))),
{
    let u: u64 = be_read(s, pos, 2);
    proof {
        lemma_pow256_values();
        assert(pow256(2) == 0x1_0000);
    }
    i16_cell(u)
}

pub fn read_u32(s: &[u8], pos: usize) -> (r: u32)
    requires
        pos + 4 <= s@.len(),
    ensures
        r as nat == be_dec(s@.subrange(pos as int, pos + 4)),
{
    let u: u64 = be_read(s, pos, 4);
    proof {
        lemma_pow256_values();
    }
    u as u32
}

/// The signed field codecs are inverses, whatever the value.
pub proof fn lemma_i64_roundtrip(v: i64)
    ensures
        i64_enc(v).len() == 8,
        i64_of_u64(be_dec(i64_enc(v))) == v,
{
    lemma_i64_cell(v);
    lemma_pow256_values();
    lemma_be_enc_len(u64_of_i64(v), 8);
    lemma_be_roundtrip(u64_of_i64(v), 8);
}

pub proof fn lemma_i32_roundtrip(v: i32)
    ensures
        i32_enc(v).len() == 4,
        i32_of_u32(be_dec(i32_enc(v))) == v,
{
    lemma_i32_cell(v);
    lemma_pow256_values();
    lemma_be_enc_len(u32_of_i32(v), 4);
    lemma_be_roundtrip(u32_of_i32(v), 4);
}

pub proof fn lemma_i16_roundtrip(v: i16)
    ensures
        i16_enc(v).len() == 2,
        i16_of_u16(be_dec(i16_enc(v))) == v,
{
    lemma_i16_cell(v);
    lemma_pow256_values();
    assert(pow256(2) == 0x1_0000);
    lemma_be_enc_len(u16_of_i16(v), 2);
    lemma_be_roundtrip(u16_of_i16(v), 2);
}

pub proof fn lemma_u32_roundtrip(v: u32)
    ensures
        u32_enc(v).len() == 4,
        be_dec(u32_enc(v)) == v,
{
    lemma_pow256_values();
    lemma_be_enc_len(v as nat, 4);
    lemma_be_roundtrip(v as nat, 4);
}

} // verus!
