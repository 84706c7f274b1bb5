//! Zig-zag and base-128 variable-length integer encodings.
//!
//! Records use signed varints: a zig-zag map folds the sign into the low bit,
//! and the result is emitted in base-128 groups, least significant first,
//! with the high bit of each byte marking continuation. Flexible protocol
//! versions use the unsigned form directly for lengths and tags.

use vstd::prelude::*;

verus! {

use vstd::arithmetic::div_mod::lemma_fundamental_div_mod;
use vstd::arithmetic::div_mod::lemma_multiply_divide_lt;
use crate::error::Error;

pub const U64_SPAN: u128 = 0x1_0000_0000_0000_0000;
pub const U32_SPAN: u64 = 0x1_0000_0000;

// ===== the zig-zag maps =====

/// Zig-zag image of a 64-bit signed integer: `2n` for `n >= 0`, `-2n - 1`
/// for `n < 0`, so that small magnitudes of either sign stay small.
pub open spec fn zigzag64(n: i64) -> nat {
    if n >= 0 {
        (2 * n) as nat
    } else {
        (-2 * (n as int) - 1) as nat
    }
}

/// Inverse of the zig-zag map.
pub open spec fn unzigzag64(u: nat) -> int {
    if u % 2 == 0 {
        (u / 2) as int
    } else {
        -((u / 2) as int) - 1
    }
}

/// Zig-zag image of a 32-bit signed integer.
pub open spec fn zigzag32(n: i32) -> nat {
    zigzag64(n as i64)
}

pub proof fn lemma_zigzag64(n: i64)
    ensures
        zigzag64(n) < U64_SPAN,
        unzigzag64(zigzag64(n)) == n,
{
    if n >= 0 {
        assert(zigzag64(n) == 2 * (n as nat));
    } else {
        let u = zigzag64(n);
        assert(u == 2 * ((-(n as int) - 1) as nat) + 1);
    }
}

pub proof fn lemma_zigzag32(n: i32)
    ensures
        zigzag32(n) < U32_SPAN,
        unzigzag64(zigzag32(n)) == n,
{
    lemma_zigzag64(n as i64);
}

// ===== unsigned base-128 groups =====

/// Powers of 128; `pow128(k)` is the first value whose encoding needs more
/// than `k` groups.
pub open spec fn pow128(k: nat) -> nat
    decreases k,
{
    if k == 0 {
        1
    } else {
        128 * pow128((k - 1) as nat)
    }
}

pub proof fn lemma_pow128_values()
    ensures
        pow128(1) == 0x80,
        pow128(5) == 0x8_0000_0000,
        pow128(9) == 0x8000_0000_0000_0000,
        pow128(10) == 0x40_0000_0000_0000_0000,
{
    assert(pow128(0) == 1);
    assert(pow128(1) == 128 * pow128(0));
    assert(pow128(2) == 128 * pow128(1));
    assert(pow128(3) == 128 * pow128(2));
    assert(pow128(4) == 128 * pow128(3));
    assert(pow128(5) == 128 * pow128(4));
    assert(pow128(6) == 128 * pow128(5));
    assert(pow128(7) == 128 * pow128(6));
    assert(pow128(8) == 128 * pow128(7));
    assert(pow128(9) == 128 * pow128(8));
    assert(pow128(10) == 128 * pow128(9));
}

/// Base-128 encoding: low group first, continuation bit on every group but
/// the last.
pub open spec fn uvarint_enc(u: nat) -> Seq<u8>
    decreases u,
{
    if u < 128 {
        seq![u as u8]
    } else {
        seq![(128 + (u % 128)) as u8] + uvarint_enc(u / 128)
    }
}

/// Base-128 decoding: the value and the number of bytes consumed, or `None`
/// when the input ends inside a value.
pub open spec fn uvarint_dec(s: Seq<u8>) -> Option<(nat, nat)>
    decreases s.len(),
{
    if s.len() == 0 {
        None
    } else if s[0] < 128 {
        Some((s[0] as nat, 1))
    } else {
        match uvarint_dec(s.skip(1)) {
            Some(p) => Some(((s[0] - 128) as nat + 128 * p.0, p.1 + 1)),
            None => None,
        }
    }
}

/// Decoding is a left inverse of encoding, whatever follows the value.
pub proof fn lemma_uvarint_roundtrip(u: nat, rest: Seq<u8>)
    ensures
        uvarint_dec(uvarint_enc(u) + rest) == Some((u, uvarint_enc(u).len())),
    decreases u,
{
    let s = uvarint_enc(u) + rest;
    if u < 128 {
        assert(s[0] == u as u8);
    } else {
        assert(s[0] == (128 + (u % 128)) as u8);
        assert(s[0] >= 128);
        assert(s.skip(1) =~= uvarint_enc(u / 128) + rest);
        lemma_uvarint_roundtrip(u / 128, rest);
        lemma_fundamental_div_mod(u as int, 128);
        assert(uvarint_enc(u).len() == 1 + uvarint_enc(u / 128).len());
    }
}

/// A value below `pow128(k)` needs at most `k` groups.
pub proof fn lemma_uvarint_len(u: nat, k: nat)
    requires
        1 <= k,
        u < pow128(k),
    ensures
        1 <= uvarint_enc(u).len() <= k,
    decreases k,
{
    if u < 128 {
    } else {
        assert(pow128(1) == 128) by {
            assert(pow128(0) == 1);
        }
        assert(k != 1);
        assert(u / 128 < pow128((k - 1) as nat)) by {
            lemma_multiply_divide_lt(u as int, 128, pow128((k - 1) as nat) as int);
        }
        lemma_uvarint_len(u / 128, (k - 1) as nat);
    }
}

/// Appends the base-128 encoding of `v`.
pub fn encode_uvarint64(out: &mut Vec<u8>, v: u64)
    ensures
        final(out)@ == old(out)@ + uvarint_enc(v as nat),
{
    let ghost base: Seq<u8> = out@;
    let mut x: u64 = v;
    while x >= 128
        invariant
            base + uvarint_enc(v as nat) == out@ + uvarint_enc(x as nat),
        decreases x,
    {
        let d: u8 = (x % 128) as u8 + 128;
        out.push(d);
        proof {
            assert(uvarint_enc(x as nat) == seq![d] + uvarint_enc((x / 128) as nat));
            assert(base + uvarint_enc(v as nat) == out@ + uvarint_enc((x / 128) as nat));
        }
        x = x / 128;
    }
    out.push(x as u8);
    proof {
        assert(uvarint_enc(x as nat) =~= seq![x as u8]);
        assert(final(out)@ =~= base + uvarint_enc(v as nat));
    }
}

/// Number of bytes `encode_uvarint64` would append for `v`.
pub fn uvarint_len64(v: u64) -> (r: usize)
    ensures
        r == uvarint_enc(v as nat).len(),
        1 <= r <= 10,
{
    let mut c: usize = 1;
    let mut x: u64 = v;
    proof {
        lemma_pow128_values();
        lemma_uvarint_len(v as nat, 10);
    }
    while x >= 128
        invariant
            uvarint_enc(v as nat).len() == (c - 1) + uvarint_enc(x as nat).len(),
            1 <= c <= 10,
            uvarint_enc(x as nat).len() >= 1,
            uvarint_enc(v as nat).len() <= 10,
        decreases x,
    {
        proof {
            assert(uvarint_enc(x as nat).len() == 1 + uvarint_enc((x / 128) as nat).len());
            assert(uvarint_enc((x / 128) as nat).len() >= 1);
        }
        x = x / 128;
        c = c + 1;
    }
    c
}

// ===== signed varints =====

/// Wire form of a signed 32-bit varint: zig-zag, then base-128.
pub open spec fn varint32_enc(n: i32) -> Seq<u8> {
    uvarint_enc(zigzag32(n))
}

/// Wire form of a signed 64-bit varint.
pub open spec fn varint64_enc(n: i64) -> Seq<u8> {
    uvarint_enc(zigzag64(n))
}

/// The signed 32-bit value at the head of `s`, with the bytes it spans.
/// `None` when the input ends inside the value, the value does not fit in
/// 32 bits, or the encoding spans more than five bytes.
pub open spec fn varint32_dec(s: Seq<u8>) -> Option<(i32, nat)> {
    match uvarint_dec(s) {
        None => None,
        Some(p) => if p.0 < U32_SPAN && p.1 <= 5 {
            Some((unzigzag64(p.0) as i32, p.1))
        } else {
            None
        },
    }
}

/// The signed 64-bit value at the head of `s`; the 64-bit analogue of
/// `varint32_dec`, with a ten-byte span.
pub open spec fn varint64_dec(s: Seq<u8>) -> Option<(i64, nat)> {
    match uvarint_dec(s) {
        None => None,
        Some(p) => if p.0 < U64_SPAN && p.1 <= 10 {
            Some((unzigzag64(p.0) as i64, p.1))
        } else {
            None
        },
    }
}

/// The zig-zag image of `n`, as a 64-bit word.
fn zigzag64_word(n: i64) -> (r: u64)
    ensures
        r as nat == zigzag64(n),
{
    if n >= 0 {
        2 * (n as u64)
    } else {
        2 * ((-(n + 1)) as u64) + 1
    }
}

/// Appends the signed varint form of `n`.
pub fn encode_varint64(out: &mut Vec<u8>, n: i64)
    ensures
        final(out)@ == old(out)@ + varint64_enc(n),
{
    let z: u64 = zigzag64_word(n);
    encode_uvarint64(out, z);
}

/// Appends the signed varint form of `n`.
pub fn encode_varint32(out: &mut Vec<u8>, n: i32)
    ensures
        final(out)@ == old(out)@ + varint32_enc(n),
{
    encode_varint64(out, n as i64);
}

/// Number of bytes `encode_varint64` would append for `n`.
pub fn varint64_len(n: i64) -> (r: usize)
    ensures
        r == varint64_enc(n).len(),
        1 <= r <= 10,
{
    let z: u64 = zigzag64_word(n);
    uvarint_len64(z)
}

/// Number of bytes `encode_varint32` would append for `n`.
pub fn varint32_len(n: i32) -> (r: usize)
    ensures
        r == varint32_enc(n).len(),
        1 <= r <= 5,
{
    proof {
        lemma_zigzag32(n);
        lemma_pow128_values();
        lemma_uvarint_len(zigzag32(n), 5);
    }
    let z: u64 = zigzag64_word(n as i64);
    uvarint_len64(z)
}

/// Reads a signed 64-bit varint at `pos`.
pub fn decode_varint64(s: &[u8], pos: usize) -> (r: Result<(i64, usize), Error>)
    requires
        pos <= s@.len(),
    ensures
        r is Ok <==> varint64_dec(s@.skip(pos as int)) is Some,
        match r {
            Ok(p) => {
                &&& varint64_dec(s@.skip(pos as int)) == Some::<(i64, nat)>((p.0, p.1 as nat))
                &&& 1 <= p.1 <= 10
                &&& pos + p.1 <= s@.len()
            },
            Err(e) => match uvarint_dec(s@.skip(pos as int)) {
                None => e == Error::IncompleteFrame,
                Some(p) => e == Error::MalformedInput,
            },
        },
{
    match decode_uvarint64(s, pos) {
        Ok((u, n)) => {
            let v: i64 = if u % 2 == 0 {
                (u / 2) as i64
            } else {
                -((u / 2) as i64) - 1
            };
            Ok((v, n))
        },
        Err(e) => Err(e),
    }
}

/// Reads a signed 32-bit varint at `pos`.
pub fn decode_varint32(s: &[u8], pos: usize) -> (r: Result<(i32, usize), Error>)
    requires
        pos <= s@.len(),
    ensures
        r is Ok <==> varint32_dec(s@.skip(pos as int)) is Some,
        match r {
            Ok(p) => {
                &&& varint32_dec(s@.skip(pos as int)) == Some::<(i32, nat)>((p.0, p.1 as nat))
                &&& 1 <= p.1 <= 5
                &&& pos + p.1 <= s@.len()
            },
            Err(e) => match uvarint_dec(s@.skip(pos as int)) {
                None => e == Error::IncompleteFrame,
                Some(p) => e == Error::MalformedInput,
            },
        },
{
    match decode_uvarint64(s, pos) {
        Ok((u, n)) => {
            if u < U32_SPAN && n <= 5 {
                let v: i64 = if u % 2 == 0 {
                    (u / 2) as i64
                } else {
                    -((u / 2) as i64) - 1
                };
                Ok((v as i32, n))
            } else {
                Err(Error::MalformedInput)
            }
        },
        Err(e) => Err(e),
    }
}

/// Reading back an encoded signed 64-bit varint returns it, whatever follows.
pub proof fn lemma_varint64_roundtrip(n: i64, rest: Seq<u8>)
    ensures
        varint64_dec(varint64_enc(n) + rest) == Some::<(i64, nat)>(
            (n, varint64_enc(n).len() as nat),
        ),
        1 <= varint64_enc(n).len() <= 10,
{
    lemma_zigzag64(n);
    lemma_pow128_values();
    lemma_uvarint_len(zigzag64(n), 10);
    lemma_uvarint_roundtrip(zigzag64(n), rest);
}

/// Reading back an encoded signed 32-bit varint returns it, whatever follows.
pub proof fn lemma_varint32_roundtrip(n: i32, rest: Seq<u8>)
    ensures
        varint32_dec(varint32_enc(n) + rest) == Some::<(i32, nat)>(
            (n, varint32_enc(n).len() as nat),
        ),
        1 <= varint32_enc(n).len() <= 5,
{
    lemma_zigzag32(n);
    lemma_pow128_values();
    lemma_uvarint_len(zigzag32(n), 5);
    lemma_uvarint_roundtrip(zigzag32(n), rest);
}

// ===== forward-scan view of the decoder =====

/// The first `j` bytes of `s` all carry the continuation bit.
pub open spec fn cont_prefix(s: Seq<u8>, j: nat) -> bool {
    forall|i: int| 0 <= i < j ==> #[trigger] s[i] >= 128
}

/// Value of the first `j` continuation groups of `s`.
pub open spec fn partial128(s: Seq<u8>, j: nat) -> nat
    decreases j,
{
    if j == 0 {
        0
    } else {
        (s[0] - 128) as nat + 128 * partial128(s.skip(1), (j - 1) as nat)
    }
}

pub proof fn lemma_partial128_bound(s: Seq<u8>, j: nat)
    requires
        j <= s.len(),
        cont_prefix(s, j),
    ensures
        partial128(s, j) < pow128(j),
    decreases j,
{
    if j == 0 {
    } else {
        assert(s[0] >= 128);
        lemma_partial128_bound(s.skip(1), (j - 1) as nat);
        assert((s[0] - 128) as nat + 128 * partial128(s.skip(1), (j - 1) as nat) < 128 * pow128(
            (j - 1) as nat,
        )) by (nonlinear_arith)
            requires
                ((s[0] - 128) as nat) < 128,
                partial128(s.skip(1), (j - 1) as nat) < pow128((j - 1) as nat),
        ;
    }
}

/// Peeling `j` continuation groups off the front of the input relates the
/// decoder's result on `s` to its result on `s.skip(j)`.
pub proof fn lemma_uvarint_dec_unfold(s: Seq<u8>, j: nat)
    requires
        j <= s.len(),
        cont_prefix(s, j),
    ensures
        match uvarint_dec(s.skip(j as int)) {
            Some(p) => uvarint_dec(s) == Some::<(nat, nat)>(
                (partial128(s, j) + pow128(j) * p.0, p.1 + j),
            ),
            None => uvarint_dec(s) is None,
        },
    decreases j,
{
    if j == 0 {
        assert(s.skip(0) =~= s);
        match uvarint_dec(s) {
            Some(p) => {
                assert(pow128(0) == 1);
                assert(partial128(s, 0) + pow128(0) * p.0 == p.0);
            },
            None => {},
        }
    } else {
        assert(s[0] >= 128);
        assert(s.skip(1).skip((j - 1) as int) =~= s.skip(j as int));
        assert forall|i: int| 0 <= i < j - 1 implies #[trigger] s.skip(1)[i] >= 128 by {
            assert(s.skip(1)[i] == s[i + 1]);
        }
        assert(cont_prefix(s.skip(1), (j - 1) as nat));
        lemma_uvarint_dec_unfold(s.skip(1), (j - 1) as nat);
        match uvarint_dec(s.skip(j as int)) {
            Some(p) => {
                let a = partial128(s.skip(1), (j - 1) as nat);
                let b = pow128((j - 1) as nat);
                assert(uvarint_dec(s.skip(1)) == Some::<(nat, nat)>((a + b * p.0, (p.1 + j - 1) as nat)));
                assert((s[0] - 128) as nat + 128 * (a + b * p.0) == partial128(s, j) + pow128(j)
                    * p.0) by (nonlinear_arith)
                    requires
                        partial128(s, j) == (s[0] - 128) as nat + 128 * a,
                        pow128(j) == 128 * b,
                ;
            },
            None => {},
        }
    }
}

/// Reads a base-128 value at `pos`. Fails with `IncompleteFrame` when the
/// input ends inside the value, and with `MalformedInput` when the value
/// does not fit in 64 bits or spans more than ten bytes.
pub fn decode_uvarint64(s: &[u8], pos: usize) -> (r: Result<(u64, usize), Error>)
    requires
        pos <= s@.len(),
    ensures
        r is Ok <==> (match uvarint_dec(s@.skip(pos as int)) {
            Some(p) => p.0 < U64_SPAN && p.1 <= 10,
            None => false,
        }),
        match r {
            Ok(p) => {
                &&& uvarint_dec(s@.skip(pos as int)) == Some::<(nat, nat)>((p.0 as nat, p.1 as nat))
                &&& 1 <= p.1 <= 10
                &&& pos + p.1 <= s@.len()
            },
            Err(e) => match uvarint_dec(s@.skip(pos as int)) {
                None => e == Error::IncompleteFrame,
                Some(p) => e == Error::MalformedInput,
            },
        },
{
    let ghost t: Seq<u8> = s@.skip(pos as int);
    let len: usize = s.len();
    // scan for the terminator group
    let mut j: usize = 0;
    while pos + j < len && s[pos + j] >= 128
        invariant
            pos <= len == s@.len(),
            pos + j <= len,
            t == s@.skip(pos as int),
            cont_prefix(t, j as nat),
        decreases len - pos - j,
    {
        proof {
            assert(t[j as int] == s@[pos + j]);
            assert(cont_prefix(t, (j + 1) as nat)) by {
                assert(forall|i: int| 0 <= i < j + 1 ==> #[trigger] t[i] >= 128);
            }
        }
        j = j + 1;
    }
    if pos + j == len {
        proof {
            assert(t.skip(j as int).len() == 0);
            lemma_uvarint_dec_unfold(t, j as nat);
        }
        return Err(Error::IncompleteFrame);
    }
    let last: u8 = s[pos + j];
    assert(last < 128);
    proof {
        assert(t.skip(j as int)[0] == s@[pos + j]);
        lemma_uvarint_dec_unfold(t, j as nat);
        lemma_partial128_bound(t, j as nat);
        lemma_pow128_values();
    }
    if j >= 10 {
        return Err(Error::MalformedInput);
    }
    if j == 9 && last >= 2 {
        proof {
            assert(pow128(9) * (last as nat) >= pow128(9) * 2) by (nonlinear_arith)
                requires
                    (last as nat) >= 2,
                    pow128(9) > 0,
            ;
        }
        return Err(Error::MalformedInput);
    }
    // accumulate the continuation groups, low group first
    let mut acc: u64 = 0;
    let mut mult: u64 = 1;
    let mut i: usize = 0;
    while i < j
        invariant
            pos <= len == s@.len(),
            pos + j < len,
            t == s@.skip(pos as int),
            cont_prefix(t, j as nat),
            i <= j <= 9,
            mult as nat == pow128(i as nat),
            acc as nat == partial128(t, i as nat),
            acc < mult,
        decreases j - i,
    {
        let b: u8 = s[pos + i];
        proof {
            assert(t[i as int] == s@[pos + i]);
            assert(b >= 128);
            assert(pow128(8) == 0x100_0000_0000_0000) by {
                lemma_pow128_values_small();
            }
            assert(pow128(i as nat) <= pow128(8)) by {
                lemma_pow128_mono(i as nat, 8);
            }
            assert(((b - 128) as nat) * pow128(i as nat) + partial128(t, i as nat) < pow128(
                (i + 1) as nat,
            )) by (nonlinear_arith)
                requires
                    ((b - 128) as nat) < 128,
                    partial128(t, i as nat) < pow128(i as nat),
                    pow128((i + 1) as nat) == 128 * pow128(i as nat),
            ;
            lemma_partial128_step(t, i as nat);
        }
        acc = acc + ((b - 128) as u64) * mult;
        mult = mult * 128;
        i = i + 1;
    }
    // add the terminator group
    proof {
        lemma_pow128_values();
        assert(pow128(j as nat) <= pow128(9)) by {
            lemma_pow128_mono(j as nat, 9);
        }
        if j < 9 {
            assert(pow128(j as nat) <= pow128(8)) by {
                lemma_pow128_mono(j as nat, 8);
            }
            assert(pow128(8) == 0x100_0000_0000_0000) by {
                lemma_pow128_values_small();
            }
        }
        if j == 9 {
            assert((last as nat) * pow128(j as nat) + partial128(t, j as nat)
                < 0x1_0000_0000_0000_0000) by (nonlinear_arith)
                requires
                    last <= 1,
                    partial128(t, j as nat) < pow128(j as nat),
                    pow128(j as nat) == 0x8000_0000_0000_0000,
            ;
        } else {
            assert((last as nat) * pow128(j as nat) + partial128(t, j as nat)
                < 0x1_0000_0000_0000_0000) by (nonlinear_arith)
                requires
                    last < 128,
                    partial128(t, j as nat) < pow128(j as nat),
                    pow128(j as nat) <= 0x100_0000_0000_0000,
            ;
        }
    }
    let v: u64 = acc + (last as u64) * mult;
    proof {
        assert(uvarint_dec(t.skip(j as int)) == Some::<(nat, nat)>((last as nat, 1)));
        assert(v as nat == partial128(t, j as nat) + pow128(j as nat) * (last as nat))
            by (nonlinear_arith)
            requires
                v as nat == partial128(t, j as nat) + (last as nat) * (mult as nat),
                mult as nat == pow128(j as nat),
        ;
    }
    Ok((v, j + 1))
}

pub proof fn lemma_pow128_mono(a: nat, b: nat)
    requires
        a <= b,
    ensures
        pow128(a) <= pow128(b),
    decreases b,
{
    if a < b {
        lemma_pow128_mono(a, (b - 1) as nat);
        assert(pow128(b) == 128 * pow128((b - 1) as nat));
        assert(128 * pow128((b - 1) as nat) >= pow128((b - 1) as nat)) by (nonlinear_arith)
            requires
                pow128((b - 1) as nat) >= 0,
        ;
    }
}

pub proof fn lemma_pow128_values_small()
    ensures
        pow128(8) == 0x100_0000_0000_0000,
{
    assert(pow128(0) == 1);
    assert(pow128(1) == 128 * pow128(0));
    assert(pow128(2) == 128 * pow128(1));
    assert(pow128(3) == 128 * pow128(2));
    assert(pow128(4) == 128 * pow128(3));
    assert(pow128(5) == 128 * pow128(4));
    assert(pow128(6) == 128 * pow128(5));
    assert(pow128(7) == 128 * pow128(6));
    assert(pow128(8) == 128 * pow128(7));
}

proof fn lemma_partial128_step(s: Seq<u8>, i: nat)
    requires
        i + 1 <= s.len(),
        cont_prefix(s, (i + 1) as nat),
    ensures
        partial128(s, (i + 1) as nat) == partial128(s, i) + (s[i as int] - 128) as nat * pow128(i),
    decreases i,
{
    if i == 0 {
        assert(pow128(0) == 1);
        assert(partial128(s, 1) == (s[0] - 128) as nat + 128 * partial128(s.skip(1), 0));
        assert(partial128(s.skip(1), 0) == 0);
        assert(partial128(s, 0) == 0);
    } else {
        assert forall|k: int| 0 <= k < i implies #[trigger] s.skip(1)[k] >= 128 by {
            assert(s.skip(1)[k] == s[k + 1]);
        }
        assert(cont_prefix(s.skip(1), i as nat));
        lemma_partial128_step(s.skip(1), (i - 1) as nat);
        assert(s.skip(1)[i - 1] == s[i as int]);
        let a = partial128(s.skip(1), (i - 1) as nat);
        let d = (s[i as int] - 128) as nat;
        assert(partial128(s.skip(1), i) == a + d * pow128((i - 1) as nat));
        assert(partial128(s, (i + 1) as nat) == (s[0] - 128) as nat + 128 * partial128(
            s.skip(1),
            i,
        ));
        assert(partial128(s, i) == (s[0] - 128) as nat + 128 * a);
        assert(128 * (a + d * pow128((i - 1) as nat)) == 128 * a + d * pow128(i))
            by (nonlinear_arith)
            requires
                pow128(i) == 128 * pow128((i - 1) as nat),
        ;
    }
}

} // verus!
