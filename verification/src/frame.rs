//! Request/response framing: the outer size prefix, the request header
//! with its nullable client id, and the flexible-version additions — the
//! compact string form and the tagged-field section.
//!
//! A version at or past an API's flexible boundary uses the compact forms
//! and appends a tagged-field section; readers skip unknown tags without
//! error, and keep them so nothing is lost.

use vstd::prelude::*;

verus! {

use crate::error::Error;
use crate::varint::uvarint_enc;
use crate::varint::uvarint_dec;
use crate::varint::encode_uvarint64;
use crate::varint::decode_uvarint64;
use crate::varint::lemma_uvarint_roundtrip;
use crate::varint::lemma_uvarint_len;
use crate::varint::lemma_pow128_values;
use crate::varint::U32_SPAN;
use crate::wire::i16_enc;
use crate::wire::i32_enc;
use crate::wire::push_i16;
use crate::wire::push_i32;
use crate::wire::read_i16;
use crate::wire::read_i32;
use crate::wire::be_dec;
use crate::wire::i16_of_u16;
use crate::wire::i32_of_u32;
use crate::wire::lemma_i16_roundtrip;
use crate::wire::lemma_i32_roundtrip;
use vstd::utf8::encode_utf8;
use vstd::utf8::valid_utf8;

/// Most a legacy string length prefix can say: lengths ride in an `i16`.
pub const MAX_LEGACY_STR: usize = 0x7fff;

/// Most a compact length prefix may carry here, so that `len + 1` stays a
/// 32-bit value.
pub const MAX_COMPACT_LEN: usize = 0xffff_fffe;

// ===== UTF-8 string fields =====

#[verifier::external_type_specification]
#[verifier::external_body]
pub struct ExUtf8Error(core::str::Utf8Error);

/// Relies on `core::str::from_utf8`: it accepts a slice exactly when the
/// slice is valid UTF-8, and the accepted `str` views back as those bytes.
pub assume_specification[ core::str::from_utf8 ](v: &[u8]) -> (r: Result<
    &str,
    core::str::Utf8Error,
>)
    ensures
        r matches Ok(s) ==> encode_utf8(s@) == v@,
        valid_utf8(v@) ==> r is Ok,
;

/// The bytes as an owned string, exactly when they are UTF-8.
pub fn utf8_string(v: &Vec<u8>) -> (r: Result<String, Error>)
    ensures
        r is Ok <==> valid_utf8(v@),
        r matches Ok(s) ==> encode_utf8(s@) == v@,
        r matches Err(e) ==> e == Error::MalformedInput,
{
    match core::str::from_utf8(v.as_slice()) {
        Ok(s) => {
            proof {
                vstd::utf8::encode_utf8_valid_utf8(s@);
            }
            Ok(s.to_owned())
        },
        Err(_) => Err(Error::MalformedInput),
    }
}

/// The client id as a borrowed string: present exactly when the header
/// carried UTF-8 bytes.
pub fn client_id_str(b: &Option<Vec<u8>>) -> (r: Option<&str>)
    ensures
        r is Some <==> (b matches Some(v) && valid_utf8(v@)),
        r matches Some(s) ==> b matches Some(v) && encode_utf8(s@) == v@,
{
    match b {
        None => None,
        Some(v) => match core::str::from_utf8(v.as_slice()) {
            Ok(s) => {
                proof {
                    vstd::utf8::encode_utf8_valid_utf8(s@);
                }
                Some(s)
            },
            Err(_) => None,
        },
    }
}

// ===== legacy nullable strings =====

/// A legacy string fits the wire when its length rides in an `i16`.
pub open spec fn nstr_wf(o: Option<Seq<u8>>) -> bool {
    match o {
        None => true,
        Some(b) => b.len() <= MAX_LEGACY_STR,
    }
}

/// Legacy form: a 16-bit big-endian length (−1 for null), then the bytes.
pub open spec fn nstr_enc(o: Option<Seq<u8>>) -> Seq<u8> {
    match o {
        None => i16_enc(-1i16),
        Some(b) => i16_enc(b.len() as i16) + b,
    }
}

/// The legacy nullable string at the head of `s`.
pub open spec fn nstr_dec(s: Seq<u8>) -> Option<(Option<Seq<u8>>, nat)> {
    if s.len() < 2 {
        None
    } else {
        let n = i16_of_u16(be_dec(s.subrange(0, 2)));
        if n == -1 {
            Some((None, 2))
        } else if n < 0 {
            None
        } else if 2 + n <= s.len() {
            Some((Some(s.subrange(2, 2 + n)), (2 + n) as nat))
        } else {
            None
        }
    }
}

pub proof fn lemma_nstr_roundtrip(o: Option<Seq<u8>>, rest: Seq<u8>)
    requires
        nstr_wf(o),
    ensures
        nstr_dec(nstr_enc(o) + rest) == Some::<(Option<Seq<u8>>, nat)>(
            (o, nstr_enc(o).len() as nat),
        ),
{
    lemma_i16_roundtrip(-1i16);
    match o {
        None => {
            assert((nstr_enc(o) + rest).subrange(0, 2) =~= i16_enc(-1i16));
        },
        Some(b) => {
            let n = b.len() as i16;
            lemma_i16_roundtrip(n);
            assert((nstr_enc(o) + rest).subrange(0, 2) =~= i16_enc(n));
            assert((nstr_enc(o) + rest).subrange(2, 2 + n) =~= b);
        },
    }
}

/// Appends a legacy nullable string.
pub fn encode_nstr(out: &mut Vec<u8>, o: &Option<Vec<u8>>)
    requires
        nstr_wf(o.deep_view()),
    ensures
        final(out)@ == old(out)@ + nstr_enc(o.deep_view()),
{
    match o {
        None => push_i16(out, -1),
        Some(b) => {
            push_i16(out, b.len() as i16);
            crate::record::push_bytes(out, b);
            proof {
                assert(final(out)@ =~= old(out)@ + nstr_enc(o.deep_view()));
            }
        },
    }
}

/// Reads a legacy nullable string at `pos`.
pub fn decode_nstr(s: &[u8], pos: usize) -> (r: Result<(Option<Vec<u8>>, usize), Error>)
    requires
        pos <= s@.len(),
    ensures
        r is Ok <==> nstr_dec(s@.skip(pos as int)) is Some,
        match r {
            Ok(p) => {
                &&& nstr_dec(s@.skip(pos as int)) == Some::<(Option<Seq<u8>>, nat)>(
                    (p.0.deep_view(), p.1 as nat),
                )
                &&& 2 <= p.1
                &&& pos + p.1 <= s@.len()
            },
            Err(e) => e == Error::IncompleteFrame || e == Error::MalformedInput,
        },
{
    let len: usize = s.len();
    let ghost t: Seq<u8> = s@.skip(pos as int);
    if len - pos < 2 {
        return Err(Error::IncompleteFrame);
    }
    proof {
        assert(t.subrange(0, 2) =~= s@.subrange(pos as int, pos + 2));
    }
    let n: i16 = read_i16(s, pos);
    if n == -1 {
        Ok((None, 2))
    } else if n < 0 {
        Err(Error::MalformedInput)
    } else {
        let ln: usize = n as usize;
        if ln > len - (pos + 2) {
            Err(Error::IncompleteFrame)
        } else {
            let sub: &[u8] = vstd::slice::slice_subrange(s, pos + 2, pos + 2 + ln);
            let v: Vec<u8> = vstd::slice::slice_to_vec(sub);
            proof {
                assert(t.subrange(2, 2 + n as int) =~= s@.subrange(pos + 2, pos + 2 + ln));
            }
            Ok((Some(v), 2 + ln))
        }
    }
}


/// Appends a whole byte slice.
pub fn push_byte_slice(out: &mut Vec<u8>, b: &[u8])
    ensures
        final(out)@ == old(out)@ + b@,
{
    let ghost base: Seq<u8> = out@;
    let n: usize = b.len();
    let mut i: usize = 0;
    while i < n
        invariant
            n == b@.len(),
            i <= n,
            out@ == base + b@.subrange(0, i as int),
        decreases n - i,
    {
        out.push(b[i]);
        proof {
            assert(base + b@.subrange(0, i as int) + seq![b@[i as int]] =~= base + b@.subrange(
                0,
                i + 1,
            ));
        }
        i = i + 1;
    }
    proof {
        assert(base + b@.subrange(0, n as int) =~= base + b@);
    }
}

/// Legacy form of a string that cannot be null: its UTF-8 bytes behind a
/// 16-bit length.
pub open spec fn str16_enc(chars: Seq<char>) -> Seq<u8> {
    i16_enc(encode_utf8(chars).len() as i16) + encode_utf8(chars)
}

/// Appends a non-null legacy string.
pub fn encode_string(out: &mut Vec<u8>, s: &String)
    requires
        encode_utf8(s@).len() <= MAX_LEGACY_STR,
    ensures
        final(out)@ == old(out)@ + str16_enc(s@),
{
    let bytes: &[u8] = s.as_str().as_bytes();
    push_i16(out, bytes.len() as i16);
    push_byte_slice(out, bytes);
    proof {
        assert(final(out)@ =~= old(out)@ + str16_enc(s@));
    }
}

/// Reads a non-null legacy string at `pos`: present UTF-8 bytes, exactly.
pub fn decode_string(s: &[u8], pos: usize) -> (r: Result<(String, usize), Error>)
    requires
        pos <= s@.len(),
    ensures
        r is Ok <==> (match nstr_dec(s@.skip(pos as int)) {
            Some(p) => p.0 matches Some(b) && valid_utf8(b),
            None => false,
        }),
        match r {
            Ok(p) => {
                &&& (nstr_dec(s@.skip(pos as int)) matches Some(q) && q.0 matches Some(b)
                    && encode_utf8(p.0@) == b && q.1 == p.1)
                &&& 2 <= p.1
                &&& pos + p.1 <= s@.len()
            },
            Err(e) => e == Error::IncompleteFrame || e == Error::MalformedInput,
        },
{
    let (bytes, n) = match decode_nstr(s, pos) {
        Ok(p) => p,
        Err(e) => {
            return Err(e);
        },
    };
    match &bytes {
        None => Err(Error::MalformedInput),
        Some(v) => {
            proof {
                assert(bytes.deep_view() == Some(v@));
            }
            match utf8_string(v) {
                Ok(st) => Ok((st, n)),
                Err(e) => Err(e),
            }
        },
    }
}

// ===== legacy nullable bytes =====

/// The legacy nullable byte field at the head of `s`.
pub open spec fn nbytes_dec(s: Seq<u8>) -> Option<(Option<Seq<u8>>, nat)> {
    if s.len() < 4 {
        None
    } else {
        let n = i32_of_u32(be_dec(s.subrange(0, 4)));
        if n == -1 {
            Some((None, 4))
        } else if n < 0 {
            None
        } else if 4 + n <= s.len() {
            Some((Some(s.subrange(4, 4 + n)), (4 + n) as nat))
        } else {
            None
        }
    }
}

/// Reads a nullable legacy byte field at `pos`.
pub fn decode_nbytes(s: &[u8], pos: usize) -> (r: Result<(Option<Vec<u8>>, usize), Error>)
    requires
        pos <= s@.len(),
    ensures
        r is Ok <==> nbytes_dec(s@.skip(pos as int)) is Some,
        match r {
            Ok(p) => {
                &&& nbytes_dec(s@.skip(pos as int)) == Some::<(Option<Seq<u8>>, nat)>(
                    (p.0.deep_view(), p.1 as nat),
                )
                &&& 4 <= p.1
                &&& pos + p.1 <= s@.len()
            },
            Err(e) => e == Error::IncompleteFrame || e == Error::MalformedInput,
        },
{
    let len: usize = s.len();
    let ghost t: Seq<u8> = s@.skip(pos as int);
    if len - pos < 4 {
        return Err(Error::IncompleteFrame);
    }
    proof {
        assert(t.subrange(0, 4) =~= s@.subrange(pos as int, pos + 4));
    }
    let n: i32 = read_i32(s, pos);
    if n == -1 {
        Ok((None, 4))
    } else if n < 0 {
        Err(Error::MalformedInput)
    } else {
        let ln: usize = n as usize;
        if ln > len - (pos + 4) {
            Err(Error::IncompleteFrame)
        } else {
            let sub: &[u8] = vstd::slice::slice_subrange(s, pos + 4, pos + 4 + ln);
            let v: Vec<u8> = vstd::slice::slice_to_vec(sub);
            proof {
                assert(t.subrange(4, 4 + n as int) =~= s@.subrange(pos + 4, pos + 4 + ln));
            }
            Ok((Some(v), 4 + ln))
        }
    }
}

// ===== compact nullable strings =====

/// A compact string fits the wire when `len + 1` stays a 32-bit value.
pub open spec fn cstr_wf(o: Option<Seq<u8>>) -> bool {
    match o {
        None => true,
        Some(b) => b.len() <= MAX_COMPACT_LEN,
    }
}

/// Compact form: an unsigned varint holding `len + 1` (0 for null), then
/// the bytes.
pub open spec fn cstr_enc(o: Option<Seq<u8>>) -> Seq<u8> {
    match o {
        None => uvarint_enc(0),
        Some(b) => uvarint_enc(b.len() + 1) + b,
    }
}

/// The compact nullable string at the head of `s`.
pub open spec fn cstr_dec(s: Seq<u8>) -> Option<(Option<Seq<u8>>, nat)> {
    match uvarint_dec(s) {
        None => None,
        Some(p) => if !(p.0 < U32_SPAN && p.1 <= 5) {
            None
        } else if p.0 == 0 {
            Some((None, p.1))
        } else if p.1 + (p.0 - 1) <= s.len() {
            Some((Some(s.subrange(p.1 as int, p.1 + p.0 - 1)), (p.1 + p.0 - 1) as nat))
        } else {
            None
        },
    }
}

pub proof fn lemma_cstr_roundtrip(o: Option<Seq<u8>>, rest: Seq<u8>)
    requires
        cstr_wf(o),
    ensures
        cstr_dec(cstr_enc(o) + rest) == Some::<(Option<Seq<u8>>, nat)>(
            (o, cstr_enc(o).len() as nat),
        ),
{
    lemma_pow128_values();
    match o {
        None => {
            lemma_uvarint_roundtrip(0, rest);
            lemma_uvarint_len(0, 5);
        },
        Some(b) => {
            lemma_uvarint_roundtrip(b.len() + 1, b + rest);
            lemma_uvarint_len(b.len() + 1, 5);
            assert(cstr_enc(o) + rest =~= uvarint_enc(b.len() + 1) + (b + rest));
            let c = uvarint_enc(b.len() + 1).len();
            assert((cstr_enc(o) + rest).subrange(c as int, (c + b.len()) as int) =~= b);
        },
    }
}

/// Appends a compact nullable string.
pub fn encode_cstr(out: &mut Vec<u8>, o: &Option<Vec<u8>>)
    requires
        cstr_wf(o.deep_view()),
    ensures
        final(out)@ == old(out)@ + cstr_enc(o.deep_view()),
{
    match o {
        None => encode_uvarint64(out, 0),
        Some(b) => {
            encode_uvarint64(out, b.len() as u64 + 1);
            crate::record::push_bytes(out, b);
            proof {
                assert(final(out)@ =~= old(out)@ + cstr_enc(o.deep_view()));
            }
        },
    }
}

/// Reads a compact nullable string at `pos`.
pub fn decode_cstr(s: &[u8], pos: usize) -> (r: Result<(Option<Vec<u8>>, usize), Error>)
    requires
        pos <= s@.len(),
    ensures
        r is Ok <==> cstr_dec(s@.skip(pos as int)) is Some,
        match r {
            Ok(p) => {
                &&& cstr_dec(s@.skip(pos as int)) == Some::<(Option<Seq<u8>>, nat)>(
                    (p.0.deep_view(), p.1 as nat),
                )
                &&& 1 <= p.1
                &&& pos + p.1 <= s@.len()
            },
            Err(e) => e == Error::IncompleteFrame || e == Error::MalformedInput,
        },
{
    let len: usize = s.len();
    let ghost t: Seq<u8> = s@.skip(pos as int);
    let (v, c) = match decode_uvarint64(s, pos) {
        Ok(p) => p,
        Err(e) => {
            return Err(e);
        },
    };
    if !(v < U32_SPAN && c <= 5) {
        return Err(Error::MalformedInput);
    }
    if v == 0 {
        return Ok((None, c));
    }
    let ln: usize = (v - 1) as usize;
    if ln > len - (pos + c) {
        return Err(Error::IncompleteFrame);
    }
    let sub: &[u8] = vstd::slice::slice_subrange(s, pos + c, pos + c + ln);
    let b: Vec<u8> = vstd::slice::slice_to_vec(sub);
    proof {
        assert(t.subrange(c as int, c + v - 1) =~= s@.subrange(pos + c, pos + c + ln));
    }
    Ok((Some(b), c + ln))
}

/// A string field of a versioned message: compact at and past the
/// flexible boundary, legacy before it.
pub open spec fn str_field_enc(o: Option<Seq<u8>>, flexible: bool) -> Seq<u8> {
    if flexible {
        cstr_enc(o)
    } else {
        nstr_enc(o)
    }
}

/// Appends a string field in the form the version calls for; the length
/// limit is the form's own.
pub fn encode_str_field(out: &mut Vec<u8>, o: &Option<Vec<u8>>, flexible: bool)
    requires
        flexible ==> cstr_wf(o.deep_view()),
        !flexible ==> nstr_wf(o.deep_view()),
    ensures
        final(out)@ == old(out)@ + str_field_enc(o.deep_view(), flexible),
{
    if flexible {
        encode_cstr(out, o);
    } else {
        encode_nstr(out, o);
    }
}

// ===== tagged fields =====

/// One tagged field: an optional field named by a numeric tag.
#[derive(Clone, Debug, PartialEq, Eq, Hash)]
pub struct TaggedField {
    pub tag: u32,
    pub data: Vec<u8>,
}

/// Mathematical value of a [`TaggedField`].
pub struct TaggedFieldV {
    pub tag: u32,
    pub data: Seq<u8>,
}

impl View for TaggedField {
    type V = TaggedFieldV;

    open spec fn view(&self) -> TaggedFieldV {
        TaggedFieldV { tag: self.tag, data: self.data@ }
    }
}

impl DeepView for TaggedField {
    type V = TaggedFieldV;

    open spec fn deep_view(&self) -> TaggedFieldV {
        self.view()
    }
}

pub open spec fn tagged_field_wf(t: TaggedFieldV) -> bool {
    t.data.len() <= MAX_COMPACT_LEN
}

/// Wire form of one tagged field: tag, byte length, payload.
pub open spec fn tagged_field_enc(t: TaggedFieldV) -> Seq<u8> {
    uvarint_enc(t.tag as nat) + uvarint_enc(t.data.len()) + t.data
}

/// The tagged field at the head of `s`. Any tag is accepted: readers
/// skip tags they do not know rather than fail.
pub open spec fn tagged_field_dec(s: Seq<u8>) -> Option<(TaggedFieldV, nat)> {
    match uvarint_dec(s) {
        None => None,
        Some(p) => if !(p.0 < U32_SPAN && p.1 <= 5) {
            None
        } else {
            match uvarint_dec(s.skip(p.1 as int)) {
                None => None,
                Some(q) => if !(q.0 < U32_SPAN && q.1 <= 5) {
                    None
                } else if p.1 + q.1 + q.0 <= s.len() {
                    Some(
                        (
                            TaggedFieldV {
                                tag: p.0 as u32,
                                data: s.subrange((p.1 + q.1) as int, (p.1 + q.1 + q.0) as int),
                            },
                            (p.1 + q.1 + q.0) as nat,
                        ),
                    )
                } else {
                    None
                },
            }
        },
    }
}

/// Every tagged field fits the wire, and tags rise strictly, as writers
/// must emit them.
pub open spec fn tagged_fields_wf(ts: Seq<TaggedFieldV>) -> bool {
    &&& forall|i: int| 0 <= i < ts.len() ==> tagged_field_wf(#[trigger] ts[i])
    &&& forall|i: int| 0 <= i + 1 < ts.len() ==> (#[trigger] ts[i].tag) < ts[i + 1].tag
    &&& ts.len() <= MAX_COMPACT_LEN
}

/// The tagged fields one after the other, with no count in front.
pub open spec fn tagged_fields_cat(ts: Seq<TaggedFieldV>) -> Seq<u8>
    decreases ts.len(),
{
    if ts.len() == 0 {
        Seq::empty()
    } else {
        tagged_field_enc(ts[0]) + tagged_fields_cat(ts.skip(1))
    }
}

/// A tagged-field section: the count, then the fields.
pub open spec fn tagged_section_enc(ts: Seq<TaggedFieldV>) -> Seq<u8> {
    uvarint_enc(ts.len()) + tagged_fields_cat(ts)
}

/// `count` tagged fields read from the head of `s`.
pub open spec fn tagged_fields_dec(s: Seq<u8>, count: nat) -> Option<(Seq<TaggedFieldV>, nat)>
    decreases count,
{
    if count == 0 {
        Some((Seq::empty(), 0))
    } else {
        match tagged_field_dec(s) {
            None => None,
            Some(h) => match tagged_fields_dec(s.skip(h.1 as int), (count - 1) as nat) {
                None => None,
                Some(t) => Some((seq![h.0] + t.0, h.1 + t.1)),
            },
        }
    }
}

/// The tagged-field section at the head of `s`.
pub open spec fn tagged_section_dec(s: Seq<u8>) -> Option<(Seq<TaggedFieldV>, nat)> {
    match uvarint_dec(s) {
        None => None,
        Some(p) => if !(p.0 < U32_SPAN && p.1 <= 5) {
            None
        } else {
            match tagged_fields_dec(s.skip(p.1 as int), p.0) {
                None => None,
                Some(q) => Some((q.0, p.1 + q.1)),
            }
        },
    }
}

proof fn lemma_tagged_field_roundtrip(t: TaggedFieldV, rest: Seq<u8>)
    requires
        tagged_field_wf(t),
    ensures
        tagged_field_dec(tagged_field_enc(t) + rest) == Some::<(TaggedFieldV, nat)>(
            (t, tagged_field_enc(t).len() as nat),
        ),
{
    lemma_pow128_values();
    let e_tag = uvarint_enc(t.tag as nat);
    let e_len = uvarint_enc(t.data.len());
    let s = tagged_field_enc(t) + rest;
    lemma_uvarint_roundtrip(t.tag as nat, e_len + (t.data + rest));
    lemma_uvarint_len(t.tag as nat, 5);
    assert(s =~= e_tag + (e_len + (t.data + rest)));
    assert(s.skip(e_tag.len() as int) =~= e_len + (t.data + rest));
    lemma_uvarint_roundtrip(t.data.len(), t.data + rest);
    lemma_uvarint_len(t.data.len(), 5);
    assert(s.subrange(
        (e_tag.len() + e_len.len()) as int,
        (e_tag.len() + e_len.len() + t.data.len()) as int,
    ) =~= t.data);
}

proof fn lemma_tagged_fields_cat_one(t: TaggedFieldV)
    ensures
        tagged_fields_cat(seq![t]) == tagged_field_enc(t),
{
    assert(seq![t].skip(1) =~= Seq::<TaggedFieldV>::empty());
    assert(tagged_fields_cat(Seq::<TaggedFieldV>::empty()) =~= Seq::<u8>::empty());
    assert(tagged_fields_cat(seq![t]) =~= tagged_field_enc(t));
}

pub proof fn lemma_tagged_fields_cat_concat(a: Seq<TaggedFieldV>, b: Seq<TaggedFieldV>)
    ensures
        tagged_fields_cat(a + b) == tagged_fields_cat(a) + tagged_fields_cat(b),
    decreases a.len(),
{
    if a.len() == 0 {
        assert(a + b =~= b);
        assert(tagged_fields_cat(a) + tagged_fields_cat(b) =~= tagged_fields_cat(b));
    } else {
        assert((a + b).skip(1) =~= a.skip(1) + b);
        lemma_tagged_fields_cat_concat(a.skip(1), b);
        assert(tagged_fields_cat(a + b) =~= tagged_fields_cat(a) + tagged_fields_cat(b));
    }
}

#[verifier::rlimit(100)]
#[verifier::spinoff_prover]
proof fn lemma_tagged_fields_roundtrip(ts: Seq<TaggedFieldV>, rest: Seq<u8>)
    requires
        forall|i: int| 0 <= i < ts.len() ==> tagged_field_wf(#[trigger] ts[i]),
    ensures
        tagged_fields_dec(tagged_fields_cat(ts) + rest, ts.len()) == Some::<
            (Seq<TaggedFieldV>, nat),
        >((ts, tagged_fields_cat(ts).len() as nat)),
    decreases ts.len(),
{
    if ts.len() == 0 {
        assert(tagged_fields_cat(ts) + rest =~= rest);
        assert(ts =~= Seq::<TaggedFieldV>::empty());
    } else {
        let tail = ts.skip(1);
        lemma_tagged_field_roundtrip(ts[0], tagged_fields_cat(tail) + rest);
        assert(tagged_fields_cat(ts) + rest =~= tagged_field_enc(ts[0]) + (tagged_fields_cat(
            tail,
        ) + rest));
        let c0 = tagged_field_enc(ts[0]).len();
        assert((tagged_fields_cat(ts) + rest).skip(c0 as int) =~= tagged_fields_cat(tail)
            + rest);
        assert(forall|i: int| 0 <= i < tail.len() ==> tagged_field_wf(#[trigger] tail[i])) by {
            assert(forall|i: int| 0 <= i < tail.len() ==> #[trigger] tail[i] == ts[i + 1]);
        }
        lemma_tagged_fields_roundtrip(tail, rest);
        assert(seq![ts[0]] + tail =~= ts);
    }
}

/// Decoding inverts encoding for every well-formed tagged-field section.
pub proof fn lemma_tagged_section_roundtrip(ts: Seq<TaggedFieldV>, rest: Seq<u8>)
    requires
        tagged_fields_wf(ts),
    ensures
        tagged_section_dec(tagged_section_enc(ts) + rest) == Some::<(Seq<TaggedFieldV>, nat)>(
            (ts, tagged_section_enc(ts).len() as nat),
        ),
{
    lemma_pow128_values();
    lemma_uvarint_roundtrip(ts.len(), tagged_fields_cat(ts) + rest);
    lemma_uvarint_len(ts.len(), 5);
    let c = uvarint_enc(ts.len()).len();
    assert(tagged_section_enc(ts) + rest =~= uvarint_enc(ts.len()) + (tagged_fields_cat(ts)
        + rest));
    assert((tagged_section_enc(ts) + rest).skip(c as int) =~= tagged_fields_cat(ts) + rest);
    lemma_tagged_fields_roundtrip(ts, rest);
}

// ===== the request header =====

/// The header every client request carries: which API, at which version,
/// the client-chosen correlation id, and the nullable client id (held as
/// its raw UTF-8 bytes).
#[derive(Clone, Debug, PartialEq, Eq, Hash)]
pub struct RequestHeader {
    pub api_key: i16,
    pub api_version: i16,
    pub correlation_id: i32,
    pub client_id: Option<Vec<u8>>,
}

/// Mathematical value of a [`RequestHeader`].
pub struct RequestHeaderV {
    pub api_key: i16,
    pub api_version: i16,
    pub correlation_id: i32,
    pub client_id: Option<Seq<u8>>,
}

impl View for RequestHeader {
    type V = RequestHeaderV;

    open spec fn view(&self) -> RequestHeaderV {
        RequestHeaderV {
            api_key: self.api_key,
            api_version: self.api_version,
            correlation_id: self.correlation_id,
            client_id: self.client_id.deep_view(),
        }
    }
}

pub open spec fn request_header_wf(h: RequestHeaderV) -> bool {
    nstr_wf(h.client_id)
}

/// Wire form of a request header. A flexible version appends a
/// tagged-field section; the client id stays in legacy form either way.
pub open spec fn request_header_enc(
    h: RequestHeaderV,
    flexible: bool,
    tags: Seq<TaggedFieldV>,
) -> Seq<u8> {
    i16_enc(h.api_key) + i16_enc(h.api_version) + i32_enc(h.correlation_id) + nstr_enc(
        h.client_id,
    ) + (if flexible {
        tagged_section_enc(tags)
    } else {
        Seq::empty()
    })
}

/// The request header at the head of `s`, with its tagged fields (empty
/// for a version before the flexible boundary).
#[verifier::opaque]
pub open spec fn request_header_dec(s: Seq<u8>, flexible: bool) -> Option<
    ((RequestHeaderV, Seq<TaggedFieldV>), nat),
> {
    if s.len() < 8 {
        None
    } else {
        let h = RequestHeaderV {
            api_key: i16_of_u16(be_dec(s.subrange(0, 2))) as i16,
            api_version: i16_of_u16(be_dec(s.subrange(2, 4))) as i16,
            correlation_id: i32_of_u32(be_dec(s.subrange(4, 8))) as i32,
            client_id: None,
        };
        match nstr_dec(s.skip(8)) {
            None => None,
            Some(c) => {
                let h2 = RequestHeaderV { client_id: c.0, ..h };
                if flexible {
                    match tagged_section_dec(s.skip(8 + c.1 as int)) {
                        None => None,
                        Some(ts) => Some(((h2, ts.0), 8 + c.1 + ts.1)),
                    }
                } else {
                    Some(((h2, Seq::empty()), 8 + c.1))
                }
            },
        }
    }
}

/// Decoding inverts encoding for every well-formed request header.
#[verifier::rlimit(100)]
#[verifier::spinoff_prover]
pub proof fn lemma_request_header_roundtrip(
    h: RequestHeaderV,
    flexible: bool,
    tags: Seq<TaggedFieldV>,
    rest: Seq<u8>,
)
    requires
        request_header_wf(h),
        tagged_fields_wf(tags),
    ensures
        request_header_dec(request_header_enc(h, flexible, tags) + rest, flexible) == Some::<
            ((RequestHeaderV, Seq<TaggedFieldV>), nat),
        >(((h, if flexible { tags } else { Seq::empty() }), request_header_enc(h, flexible, tags).len() as nat)),
{
    reveal(request_header_dec);
    let e_cid = nstr_enc(h.client_id);
    let e_tail: Seq<u8> = if flexible {
        tagged_section_enc(tags)
    } else {
        Seq::empty()
    };
    let s = request_header_enc(h, flexible, tags) + rest;
    lemma_i16_roundtrip(h.api_key);
    lemma_i16_roundtrip(h.api_version);
    lemma_i32_roundtrip(h.correlation_id);
    assert(s.subrange(0, 2) =~= i16_enc(h.api_key));
    assert(s.subrange(2, 4) =~= i16_enc(h.api_version));
    assert(s.subrange(4, 8) =~= i32_enc(h.correlation_id));
    assert(s.skip(8) =~= e_cid + (e_tail + rest));
    lemma_nstr_roundtrip(h.client_id, e_tail + rest);
    assert(s.skip((8 + e_cid.len()) as int) =~= e_tail + rest);
    if flexible {
        lemma_tagged_section_roundtrip(tags, rest);
    }
}

// ===== whole frames =====

/// Wire form of a request frame: a size prefix counting everything after
/// it, the header, then the body bytes.
pub open spec fn request_frame_enc(
    h: RequestHeaderV,
    flexible: bool,
    tags: Seq<TaggedFieldV>,
    body: Seq<u8>,
) -> Seq<u8> {
    i32_enc((request_header_enc(h, flexible, tags).len() + body.len()) as i32)
        + request_header_enc(h, flexible, tags) + body
}

/// The request frame at the head of `s`: the header, its tagged fields,
/// and the body bytes, which run to the end of the sized window.
#[verifier::opaque]
pub open spec fn request_frame_dec(s: Seq<u8>, flexible: bool) -> Option<
    ((RequestHeaderV, Seq<TaggedFieldV>, Seq<u8>), nat),
> {
    if s.len() < 4 {
        None
    } else {
        let size = i32_of_u32(be_dec(s.subrange(0, 4)));
        if size < 0 || 4 + size > s.len() {
            None
        } else {
            let w = s.subrange(4, 4 + size);
            match request_header_dec(w, flexible) {
                None => None,
                Some(p) => Some(((p.0.0, p.0.1, w.skip(p.1 as int)), (4 + size) as nat)),
            }
        }
    }
}

/// A frame fits the wire when its size prefix rides in an `i32`.
pub open spec fn request_frame_wf(
    h: RequestHeaderV,
    flexible: bool,
    tags: Seq<TaggedFieldV>,
    body: Seq<u8>,
) -> bool {
    &&& request_header_wf(h)
    &&& tagged_fields_wf(tags)
    &&& request_header_enc(h, flexible, tags).len() + body.len() <= 0x7fff_ffff
}

/// Decoding inverts encoding for every well-formed request frame.
#[verifier::rlimit(100)]
#[verifier::spinoff_prover]
pub proof fn lemma_request_frame_roundtrip(
    h: RequestHeaderV,
    flexible: bool,
    tags: Seq<TaggedFieldV>,
    body: Seq<u8>,
)
    requires
        request_frame_wf(h, flexible, tags, body),
    ensures
        request_frame_dec(request_frame_enc(h, flexible, tags, body), flexible) == Some::<
            ((RequestHeaderV, Seq<TaggedFieldV>, Seq<u8>), nat),
        >(
            (
                (h, if flexible { tags } else { Seq::empty() }, body),
                request_frame_enc(h, flexible, tags, body).len() as nat,
            ),
        ),
{
    reveal(request_frame_dec);
    let e_h = request_header_enc(h, flexible, tags);
    let size = (e_h.len() + body.len()) as i32;
    let s = request_frame_enc(h, flexible, tags, body);
    lemma_i32_roundtrip(size);
    assert(s.subrange(0, 4) =~= i32_enc(size));
    assert(s.subrange(4, 4 + size) =~= e_h + body);
    lemma_request_header_roundtrip(h, flexible, tags, body);
    assert((e_h + body).skip(e_h.len() as int) =~= body);
}

/// A flexible request header is the legacy header with a tagged-field
/// section appended; a version before the boundary appends nothing. A
/// flexible string field takes the compact form, an earlier one the
/// legacy form.
pub proof fn lemma_flexibility(
    h: RequestHeaderV,
    tags: Seq<TaggedFieldV>,
    o: Option<Seq<u8>>,
)
    ensures
        request_header_enc(h, true, tags) == request_header_enc(h, false, tags)
            + tagged_section_enc(tags),
        str_field_enc(o, true) == cstr_enc(o),
        str_field_enc(o, false) == nstr_enc(o),
{
    assert(request_header_enc(h, true, tags) =~= request_header_enc(h, false, tags)
        + tagged_section_enc(tags));
}

/// A decoder handed a flexible request with extra unknown tagged fields
/// returns the same header and the same body as without them.
#[verifier::rlimit(100)]
#[verifier::spinoff_prover]
pub proof fn lemma_unknown_tags_tolerated(
    h: RequestHeaderV,
    tags: Seq<TaggedFieldV>,
    body: Seq<u8>,
)
    requires
        request_frame_wf(h, true, tags, body),
    ensures
        ({
            let with_tags = request_frame_dec(request_frame_enc(h, true, tags, body), true);
            let without = request_frame_dec(
                request_frame_enc(h, true, Seq::empty(), body),
                true,
            );
            &&& with_tags is Some
            &&& without is Some
            &&& with_tags->Some_0.0.0 == without->Some_0.0.0
            &&& with_tags->Some_0.0.2 == without->Some_0.0.2
            &&& with_tags->Some_0.0.0 == h
            &&& with_tags->Some_0.0.2 == body
        }),
{
    lemma_request_frame_roundtrip(h, true, tags, body);
    assert(tagged_fields_wf(Seq::<TaggedFieldV>::empty()));
    assert(request_header_enc(h, true, Seq::empty()).len() <= request_header_enc(
        h,
        true,
        tags,
    ).len()) by {
        assert(tagged_fields_cat(Seq::<TaggedFieldV>::empty()) =~= Seq::<u8>::empty());
        assert(uvarint_enc(0) =~= seq![0u8]);
        lemma_pow128_values();
        lemma_uvarint_len(tags.len() + 0, 5);
        assert(uvarint_enc(tags.len() + 0).len() >= 1);
        assert(tagged_section_enc(Seq::<TaggedFieldV>::empty()).len() == 1);
        assert(tagged_section_enc(tags).len() >= 1);
    }
    lemma_request_frame_roundtrip(h, true, Seq::empty(), body);
}

// ===== executable header and frame codec =====

/// Appends a request header.
pub fn encode_request_header(
    out: &mut Vec<u8>,
    h: &RequestHeader,
    flexible: bool,
)
    requires
        request_header_wf(h@),
    ensures
        final(out)@ == old(out)@ + request_header_enc(h@, flexible, Seq::empty()),
{
    push_i16(out, h.api_key);
    push_i16(out, h.api_version);
    push_i32(out, h.correlation_id);
    encode_nstr(out, &h.client_id);
    if flexible {
        encode_uvarint64(out, 0);
        proof {
            assert(tagged_fields_cat(Seq::<TaggedFieldV>::empty()) =~= Seq::<u8>::empty());
            assert(tagged_section_enc(Seq::<TaggedFieldV>::empty()) =~= uvarint_enc(0));
            assert(final(out)@ =~= old(out)@ + request_header_enc(h@, flexible, Seq::empty()));
        }
    } else {
        proof {
            assert(final(out)@ =~= old(out)@ + request_header_enc(h@, flexible, Seq::empty()));
        }
    }
}

/// Reads the request header at the head of `w`, with its tagged fields.
#[verifier::rlimit(100)]
#[verifier::spinoff_prover]
pub fn decode_request_header(w: &[u8], flexible: bool) -> (r: Result<
    (RequestHeader, Vec<TaggedField>, usize),
    Error,
>)
    ensures
        r is Ok <==> request_header_dec(w@, flexible) is Some,
        match r {
            Ok(p) => {
                &&& request_header_dec(w@, flexible) == Some::<
                    ((RequestHeaderV, Seq<TaggedFieldV>), nat),
                >(((p.0@, p.1.deep_view()), p.2 as nat))
                &&& 8 <= p.2
                &&& p.2 <= w@.len()
            },
            Err(e) => e == Error::IncompleteFrame || e == Error::MalformedInput,
        },
{
    proof {
        reveal(request_header_dec);
    }
    let len: usize = w.len();
    if len < 8 {
        return Err(Error::IncompleteFrame);
    }
    proof {
        assert(w@.skip(0) =~= w@);
        assert(w@.subrange(0, 2) =~= w@.subrange(0, 2));
    }
    let api_key: i16 = read_i16(w, 0);
    let api_version: i16 = read_i16(w, 2);
    let correlation_id: i32 = read_i32(w, 4);
    let (client_id, c1) = match decode_nstr(w, 8) {
        Ok(p) => p,
        Err(e) => {
            return Err(e);
        },
    };
    proof {
        assert(w@.skip(8).subrange(0, w@.skip(8).len() as int) =~= w@.skip(8));
    }
    let header = RequestHeader { api_key, api_version, correlation_id, client_id };
    if flexible {
        proof {
            assert(w@.skip(8 + c1) =~= w@.skip(8).skip(c1 as int));
        }
        let (tags, c2) = match decode_tagged_section(w, 8 + c1) {
            Ok(p) => p,
            Err(e) => {
                return Err(e);
            },
        };
        Ok((header, tags, 8 + c1 + c2))
    } else {
        Ok((header, Vec::new(), 8 + c1))
    }
}

/// Reads a tagged-field section at `pos`, keeping every field whatever
/// its tag.
#[verifier::rlimit(100)]
#[verifier::spinoff_prover]
pub fn decode_tagged_section(s: &[u8], pos: usize) -> (r: Result<
    (Vec<TaggedField>, usize),
    Error,
>)
    requires
        pos <= s@.len(),
    ensures
        r is Ok <==> tagged_section_dec(s@.skip(pos as int)) is Some,
        match r {
            Ok(p) => {
                &&& tagged_section_dec(s@.skip(pos as int)) == Some::<
                    (Seq<TaggedFieldV>, nat),
                >((p.0.deep_view(), p.1 as nat))
                &&& pos + p.1 <= s@.len()
            },
            Err(e) => e == Error::IncompleteFrame || e == Error::MalformedInput,
        },
{
    let len: usize = s.len();
    let ghost t: Seq<u8> = s@.skip(pos as int);
    let (count, c0) = match decode_uvarint64(s, pos) {
        Ok(p) => p,
        Err(e) => {
            proof {
                match uvarint_dec(t) {
                    None => {},
                    Some(p) => {
                        assert(!(p.0 < U32_SPAN && p.1 <= 5));
                    },
                }
                assert(tagged_section_dec(t) is None);
            }
            return Err(e);
        },
    };
    if !(count < U32_SPAN && c0 <= 5) {
        return Err(Error::MalformedInput);
    }
    proof {
        assert(t.skip(c0 as int) =~= s@.skip(pos + c0));
    }
    let ghost u0: Seq<u8> = s@.skip(pos + c0);
    let mut acc: Vec<TaggedField> = Vec::new();
    let mut cur: usize = pos + c0;
    let mut i: u64 = 0;
    proof {
        assert(acc.deep_view() =~= Seq::<TaggedFieldV>::empty());
    }
    while i < count
        invariant
            pos + c0 <= cur <= len,
            len == s@.len(),
            i <= count,
            count < U32_SPAN,
            c0 <= 5,
            uvarint_dec(s@.skip(pos as int)) == Some::<(nat, nat)>((count as nat, c0 as nat)),
            u0 == s@.skip((pos + c0) as int),
            match tagged_fields_dec(s@.skip(cur as int), (count - i) as nat) {
                Some(tl) => tagged_fields_dec(u0, count as nat) == Some::<
                    (Seq<TaggedFieldV>, nat),
                >((acc.deep_view() + tl.0, ((cur - pos - c0) + tl.1) as nat)),
                None => tagged_fields_dec(u0, count as nat) is None,
            },
        decreases count - i,
    {
        let ghost ucur: Seq<u8> = s@.skip(cur as int);
        let ghost acc_pre: Vec<TaggedField> = acc;
        let (tf, n) = match decode_tagged_field(s, cur) {
            Ok(p) => p,
            Err(e) => {
                proof {
                    assert(tagged_fields_dec(ucur, (count - i) as nat) is None);
                    assert(tagged_fields_dec(u0, count as nat) is None);
                    assert(s@.skip(pos as int).skip(c0 as int) =~= s@.skip(
                        (pos + c0) as int,
                    ));
                    assert(tagged_section_dec(s@.skip(pos as int)) is None);
                }
                return Err(e);
            },
        };
        proof {
            assert(ucur.skip(n as int) =~= s@.skip(cur + n));
            let tl_next = tagged_fields_dec(s@.skip(cur + n), (count - i - 1) as nat);
            match tl_next {
                Some(tl) => {
                    assert(tagged_fields_dec(ucur, (count - i) as nat) == Some::<
                        (Seq<TaggedFieldV>, nat),
                    >((seq![tf@] + tl.0, (n + tl.1) as nat)));
                    assert(acc.deep_view() + (seq![tf@] + tl.0) =~= (acc.deep_view()
                        + seq![tf@]) + tl.0);
                    assert(acc.deep_view() + seq![tf@] =~= acc.deep_view().push(tf@));
                },
                None => {
                    assert(tagged_fields_dec(ucur, (count - i) as nat) is None);
                },
            }
        }
        acc.push(tf);
        proof {
            assert(acc.deep_view() =~= acc_pre.deep_view().push(acc@[acc@.len() - 1]@));
        }
        cur = cur + n;
        i = i + 1;
    }
    proof {
        assert(tagged_fields_dec(s@.skip(cur as int), 0) == Some::<(Seq<TaggedFieldV>, nat)>(
            (Seq::empty(), 0),
        ));
        assert(acc.deep_view() + Seq::<TaggedFieldV>::empty() =~= acc.deep_view());
    }
    Ok((acc, cur - pos))
}

/// Reads one tagged field at `pos`.
pub fn decode_tagged_field(s: &[u8], pos: usize) -> (r: Result<(TaggedField, usize), Error>)
    requires
        pos <= s@.len(),
    ensures
        r is Ok <==> tagged_field_dec(s@.skip(pos as int)) is Some,
        match r {
            Ok(p) => {
                &&& tagged_field_dec(s@.skip(pos as int)) == Some::<(TaggedFieldV, nat)>(
                    (p.0@, p.1 as nat),
                )
                &&& 2 <= p.1
                &&& pos + p.1 <= s@.len()
            },
            Err(e) => e == Error::IncompleteFrame || e == Error::MalformedInput,
        },
{
    let len: usize = s.len();
    let ghost t: Seq<u8> = s@.skip(pos as int);
    let (tag, c0) = match decode_uvarint64(s, pos) {
        Ok(p) => p,
        Err(e) => {
            return Err(e);
        },
    };
    if !(tag < U32_SPAN && c0 <= 5) {
        return Err(Error::MalformedInput);
    }
    proof {
        assert(t.skip(c0 as int) =~= s@.skip(pos + c0));
    }
    let (dlen, c1) = match decode_uvarint64(s, pos + c0) {
        Ok(p) => p,
        Err(e) => {
            return Err(e);
        },
    };
    if !(dlen < U32_SPAN && c1 <= 5) {
        return Err(Error::MalformedInput);
    }
    let ln: usize = dlen as usize;
    if ln > len - (pos + c0 + c1) {
        return Err(Error::IncompleteFrame);
    }
    let sub: &[u8] = vstd::slice::slice_subrange(s, pos + c0 + c1, pos + c0 + c1 + ln);
    let data: Vec<u8> = vstd::slice::slice_to_vec(sub);
    proof {
        assert(t.subrange((c0 + c1) as int, (c0 + c1) as int + dlen as int) =~= s@.subrange(
            pos + c0 + c1,
            pos + c0 + c1 + ln,
        ));
    }
    Ok((TaggedField { tag: tag as u32, data }, c0 + c1 + ln))
}

/// Reads a whole request frame: the size prefix, the header, the body.
#[verifier::rlimit(100)]
#[verifier::spinoff_prover]
pub fn decode_request_frame(s: &[u8], flexible: bool) -> (r: Result<
    (RequestHeader, Vec<TaggedField>, Vec<u8>, usize),
    Error,
>)
    ensures
        r is Ok <==> request_frame_dec(s@, flexible) is Some,
        match r {
            Ok(p) => request_frame_dec(s@, flexible) == Some::<
                ((RequestHeaderV, Seq<TaggedFieldV>, Seq<u8>), nat),
            >(((p.0@, p.1.deep_view(), p.2@), p.3 as nat)) && p.3 <= s@.len(),
            Err(e) => e == Error::IncompleteFrame || e == Error::MalformedInput,
        },
{
    proof {
        reveal(request_frame_dec);
    }
    let len: usize = s.len();
    if len < 4 {
        return Err(Error::IncompleteFrame);
    }
    proof {
        assert(s@.subrange(0, 4) =~= s@.subrange(0, 4));
    }
    let size: i32 = read_i32(s, 0);
    if size < 0 {
        return Err(Error::MalformedInput);
    }
    let sz: usize = size as usize;
    if sz > len - 4 {
        return Err(Error::IncompleteFrame);
    }
    let w: &[u8] = vstd::slice::slice_subrange(s, 4, 4 + sz);
    let (header, tags, used) = match decode_request_header(w, flexible) {
        Ok(p) => p,
        Err(e) => {
            return Err(e);
        },
    };
    let body_slice: &[u8] = vstd::slice::slice_subrange(w, used, sz);
    let body: Vec<u8> = vstd::slice::slice_to_vec(body_slice);
    proof {
        assert(w@ =~= s@.subrange(4, 4 + size));
        assert(body@ =~= w@.skip(used as int));
    }
    Ok((header, tags, body, 4 + sz))
}

/// Wire form of a response frame: a size prefix, the request's
/// correlation id, an empty tagged-field section when the version is
/// flexible, then the body.
pub open spec fn response_frame_enc(correlation_id: i32, flexible: bool, body: Seq<u8>) -> Seq<
    u8,
> {
    i32_enc((4 + (if flexible { 1int } else { 0int }) + body.len()) as i32) + i32_enc(
        correlation_id,
    ) + (if flexible {
        uvarint_enc(0)
    } else {
        Seq::empty()
    }) + body
}

/// The correlation id a response frame carries, right after its size.
pub open spec fn response_correlation_id(s: Seq<u8>) -> int {
    i32_of_u32(be_dec(s.subrange(4, 8)))
}

/// Every response frame echoes the correlation id it was built with.
pub proof fn lemma_response_frame_correlation(correlation_id: i32, flexible: bool, body: Seq<u8>)
    ensures
        response_correlation_id(response_frame_enc(correlation_id, flexible, body))
            == correlation_id,
        response_frame_enc(correlation_id, flexible, body).len() == 8 + (if flexible {
            1int
        } else {
            0int
        }) + body.len(),
{
    let s = response_frame_enc(correlation_id, flexible, body);
    lemma_i32_roundtrip(correlation_id);
    lemma_i32_roundtrip((4 + (if flexible { 1int } else { 0int }) + body.len()) as i32);
    assert(s.subrange(4, 8) =~= i32_enc(correlation_id));
}

/// Builds a response frame around an encoded body.
pub fn encode_response_frame(correlation_id: i32, flexible: bool, body: &[u8]) -> (r: Vec<u8>)
    requires
        body@.len() + 5 <= 0x7fff_ffff,
    ensures
        r@ == response_frame_enc(correlation_id, flexible, body@),
        response_correlation_id(r@) == correlation_id,
{
    let mut out: Vec<u8> = Vec::new();
    let size: i32 = if flexible {
        (body.len() + 5) as i32
    } else {
        (body.len() + 4) as i32
    };
    push_i32(&mut out, size);
    push_i32(&mut out, correlation_id);
    if flexible {
        encode_uvarint64(&mut out, 0);
    }
    let body_vec: Vec<u8> = vstd::slice::slice_to_vec(body);
    crate::record::push_bytes(&mut out, &body_vec);
    proof {
        if !flexible {
            assert(i32_enc(correlation_id) + Seq::<u8>::empty() =~= i32_enc(correlation_id));
        }
        assert(out@ =~= response_frame_enc(correlation_id, flexible, body@));
        lemma_response_frame_correlation(correlation_id, flexible, body@);
    }
    out
}

} // verus!
