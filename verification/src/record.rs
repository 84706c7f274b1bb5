//! The record codec: single log entries, their headers, and count-prefixed
//! sequences of them, as they sit inside a record batch.
//!
//! A record starts with a self-describing `length` varint that equals the
//! byte count of everything after it; the tail holds the attributes byte,
//! the two delta varints, the nullable key and value, and the headers.

use vstd::prelude::*;

verus! {

use crate::error::Error;
use crate::varint::varint32_enc;
use crate::varint::varint64_enc;
use crate::varint::varint32_dec;
use crate::varint::varint64_dec;
use crate::varint::encode_varint32;
use crate::varint::encode_varint64;
use crate::varint::varint32_len;
use crate::varint::varint64_len;
use crate::varint::decode_varint32;
use crate::varint::decode_varint64;
use crate::varint::lemma_varint32_roundtrip;
use crate::varint::lemma_varint64_roundtrip;
use crate::wire::i32_enc;
use crate::wire::push_i32;
use crate::wire::read_i32;
use crate::wire::i32_of_u32;
use crate::wire::be_dec;
use crate::wire::lemma_i32_roundtrip;

/// Most a record-level length prefix can say: lengths ride in an `i32`.
pub const MAX_RECORD_LEN: usize = 0x7fff_ffff;

// ===== views =====

/// Mathematical value of a [`Header`].
pub struct HeaderV {
    pub key: Option<Seq<u8>>,
    pub value: Option<Seq<u8>>,
}

/// Mathematical value of a [`Record`].
pub struct RecordV {
    pub length: i32,
    pub attributes: u8,
    pub timestamp_delta: i64,
    pub offset_delta: i32,
    pub key: Option<Seq<u8>>,
    pub value: Option<Seq<u8>>,
    pub headers: Seq<HeaderV>,
}

// ===== nullable byte sequences =====

/// A nullable byte sequence fits the wire when its length rides in an `i32`.
pub open spec fn octets_wf(o: Option<Seq<u8>>) -> bool {
    match o {
        None => true,
        Some(b) => b.len() <= MAX_RECORD_LEN,
    }
}

/// Wire form: a zig-zag varint length (−1 for null), then the bytes.
pub open spec fn octets_enc(o: Option<Seq<u8>>) -> Seq<u8> {
    match o {
        None => varint32_enc(-1i32),
        Some(b) => varint32_enc(b.len() as i32) + b,
    }
}

/// The nullable byte sequence at the head of `s`, with the bytes it spans.
pub open spec fn octets_dec(s: Seq<u8>) -> Option<(Option<Seq<u8>>, nat)> {
    match varint32_dec(s) {
        None => None,
        Some(p) => if p.0 == -1 {
            Some((None, p.1))
        } else if p.0 < 0 {
            None
        } else if p.1 + p.0 <= s.len() {
            Some((Some(s.subrange(p.1 as int, p.1 + p.0)), (p.1 + p.0) as nat))
        } else {
            None
        },
    }
}

pub proof fn lemma_octets_roundtrip(o: Option<Seq<u8>>, rest: Seq<u8>)
    requires
        octets_wf(o),
    ensures
        octets_dec(octets_enc(o) + rest) == Some::<(Option<Seq<u8>>, nat)>(
            (o, octets_enc(o).len() as nat),
        ),
{
    match o {
        None => {
            lemma_varint32_roundtrip(-1i32, rest);
        },
        Some(b) => {
            let n = b.len() as i32;
            lemma_varint32_roundtrip(n, b + rest);
            assert(octets_enc(o) + rest =~= varint32_enc(n) + (b + rest));
            let c = varint32_enc(n).len();
            assert((octets_enc(o) + rest).subrange(c as int, c + n) =~= b);
        },
    }
}

// ===== headers =====

/// Key/value pair inside a record; both sides are nullable byte sequences
/// with zig-zag varint length prefixes.
#[derive(Clone, Debug, PartialEq, Eq, Hash)]
pub struct Header {
    pub key: Option<Vec<u8>>,
    pub value: Option<Vec<u8>>,
}

impl View for Header {
    type V = HeaderV;

    open spec fn view(&self) -> HeaderV {
        HeaderV { key: self.key.deep_view(), value: self.value.deep_view() }
    }
}

impl DeepView for Header {
    type V = HeaderV;

    open spec fn deep_view(&self) -> HeaderV {
        self.view()
    }
}

pub open spec fn header_wf(h: HeaderV) -> bool {
    octets_wf(h.key) && octets_wf(h.value)
}

pub open spec fn header_enc(h: HeaderV) -> Seq<u8> {
    octets_enc(h.key) + octets_enc(h.value)
}

pub open spec fn header_dec(s: Seq<u8>) -> Option<(HeaderV, nat)> {
    match octets_dec(s) {
        None => None,
        Some(k) => match octets_dec(s.skip(k.1 as int)) {
            None => None,
            Some(v) => Some((HeaderV { key: k.0, value: v.0 }, k.1 + v.1)),
        },
    }
}

pub proof fn lemma_header_roundtrip(h: HeaderV, rest: Seq<u8>)
    requires
        header_wf(h),
    ensures
        header_dec(header_enc(h) + rest) == Some::<(HeaderV, nat)>(
            (h, header_enc(h).len() as nat),
        ),
{
    lemma_octets_roundtrip(h.key, octets_enc(h.value) + rest);
    assert(header_enc(h) + rest =~= octets_enc(h.key) + (octets_enc(h.value) + rest));
    let c1 = octets_enc(h.key).len();
    assert((header_enc(h) + rest).skip(c1 as int) =~= octets_enc(h.value) + rest);
    lemma_octets_roundtrip(h.value, rest);
}

/// All headers in a sequence fit the wire.
pub open spec fn headers_wf(hs: Seq<HeaderV>) -> bool {
    forall|i: int| 0 <= i < hs.len() ==> header_wf(#[trigger] hs[i])
}

/// The headers one after the other, with no count in front.
pub open spec fn headers_enc(hs: Seq<HeaderV>) -> Seq<u8>
    decreases hs.len(),
{
    if hs.len() == 0 {
        Seq::empty()
    } else {
        header_enc(hs[0]) + headers_enc(hs.skip(1))
    }
}

/// `count` headers read from the head of `s`.
pub open spec fn headers_dec(s: Seq<u8>, count: nat) -> Option<(Seq<HeaderV>, nat)>
    decreases count,
{
    if count == 0 {
        Some((Seq::empty(), 0))
    } else {
        match header_dec(s) {
            None => None,
            Some(h) => match headers_dec(s.skip(h.1 as int), (count - 1) as nat) {
                None => None,
                Some(t) => Some((seq![h.0] + t.0, h.1 + t.1)),
            },
        }
    }
}

#[verifier::rlimit(100)]
pub proof fn lemma_headers_roundtrip(hs: Seq<HeaderV>, rest: Seq<u8>)
    requires
        headers_wf(hs),
    ensures
        headers_dec(headers_enc(hs) + rest, hs.len()) == Some::<(Seq<HeaderV>, nat)>(
            (hs, headers_enc(hs).len() as nat),
        ),
    decreases hs.len(),
{
    if hs.len() == 0 {
        assert(headers_enc(hs) + rest =~= rest);
        assert(headers_dec(rest, 0) == Some::<(Seq<HeaderV>, nat)>((Seq::empty(), 0)));
        assert(hs =~= Seq::<HeaderV>::empty());
    } else {
        let tail = hs.skip(1);
        lemma_header_roundtrip(hs[0], headers_enc(tail) + rest);
        assert(headers_enc(hs) + rest =~= header_enc(hs[0]) + (headers_enc(tail) + rest));
        let c0 = header_enc(hs[0]).len();
        assert((headers_enc(hs) + rest).skip(c0 as int) =~= headers_enc(tail) + rest);
        assert(headers_wf(tail)) by {
            assert(forall|i: int| 0 <= i < tail.len() ==> #[trigger] tail[i] == hs[i + 1]);
        }
        lemma_headers_roundtrip(tail, rest);
        assert(seq![hs[0]] + tail =~= hs);
    }
}

// ===== the record itself =====

/// A single log entry inside a batch. `length` describes the encoded size
/// of every field after it; a present key with an absent value marks a
/// tombstone.
#[derive(Clone, Debug, PartialEq, Eq, Hash)]
pub struct Record {
    pub length: i32,
    pub attributes: u8,
    pub timestamp_delta: i64,
    pub offset_delta: i32,
    pub key: Option<Vec<u8>>,
    pub value: Option<Vec<u8>>,
    pub headers: Vec<Header>,
}

impl View for Record {
    type V = RecordV;

    open spec fn view(&self) -> RecordV {
        RecordV {
            length: self.length,
            attributes: self.attributes,
            timestamp_delta: self.timestamp_delta,
            offset_delta: self.offset_delta,
            key: self.key.deep_view(),
            value: self.value.deep_view(),
            headers: self.headers.deep_view(),
        }
    }
}

impl DeepView for Record {
    type V = RecordV;

    open spec fn deep_view(&self) -> RecordV {
        self.view()
    }
}

/// The record's payloads and headers fit their wire length prefixes.
pub open spec fn record_sizes_ok(r: RecordV) -> bool {
    &&& octets_wf(r.key)
    &&& octets_wf(r.value)
    &&& headers_wf(r.headers)
    &&& r.headers.len() <= MAX_RECORD_LEN
}

/// Everything after the `length` varint, in wire order.
pub open spec fn record_tail_enc(r: RecordV) -> Seq<u8> {
    seq![r.attributes] + varint64_enc(r.timestamp_delta) + varint32_enc(r.offset_delta)
        + octets_enc(r.key) + octets_enc(r.value) + varint32_enc(r.headers.len() as i32)
        + headers_enc(r.headers)
}

/// A well-formed record: its payloads fit, and its `length` field equals
/// the byte count of its encoded tail.
pub open spec fn record_wf(r: RecordV) -> bool {
    &&& record_sizes_ok(r)
    &&& r.length == record_tail_enc(r).len()
}

/// Full wire form of a record.
pub open spec fn record_enc(r: RecordV) -> Seq<u8> {
    varint32_enc(r.length) + record_tail_enc(r)
}

/// The record tail at the head of `s`: attributes byte, deltas, key, value,
/// headers. The returned view carries `length` zero; the caller fills it.
#[verifier::opaque]
pub open spec fn record_tail_dec(s: Seq<u8>) -> Option<(RecordV, nat)> {
    if s.len() == 0 {
        None
    } else {
        let r1 = s.skip(1);
        match varint64_dec(r1) {
            None => None,
            Some(ts) => {
                let r2 = r1.skip(ts.1 as int);
                match varint32_dec(r2) {
                    None => None,
                    Some(off) => {
                        let r3 = r2.skip(off.1 as int);
                        match octets_dec(r3) {
                            None => None,
                            Some(k) => {
                                let r4 = r3.skip(k.1 as int);
                                match octets_dec(r4) {
                                    None => None,
                                    Some(v) => {
                                        let r5 = r4.skip(v.1 as int);
                                        match varint32_dec(r5) {
                                            None => None,
                                            Some(hc) => if hc.0 < 0 {
                                                None
                                            } else {
                                                let r6 = r5.skip(hc.1 as int);
                                                match headers_dec(r6, hc.0 as nat) {
                                                    None => None,
                                                    Some(hs) => Some(
                                                        (
                                                            RecordV {
                                                                length: 0,
                                                                attributes: s[0],
                                                                timestamp_delta: ts.0,
                                                                offset_delta: off.0,
                                                                key: k.0,
                                                                value: v.0,
                                                                headers: hs.0,
                                                            },
                                                            (1 + ts.1 + off.1 + k.1 + v.1 + hc.1
                                                                + hs.1) as nat,
                                                        ),
                                                    ),
                                                }
                                            },
                                        }
                                    },
                                }
                            },
                        }
                    },
                }
            },
        }
    }
}

/// The record at the head of `s`. The tail must span exactly as many bytes
/// as the `length` varint announced.
#[verifier::opaque]
pub open spec fn record_dec(s: Seq<u8>) -> Option<(RecordV, nat)> {
    match varint32_dec(s) {
        None => None,
        Some(p) => if p.0 < 0 {
            None
        } else {
            match record_tail_dec(s.skip(p.1 as int)) {
                None => None,
                Some(t) => if t.1 == p.0 {
                    Some((RecordV { length: p.0, ..t.0 }, p.1 + t.1))
                } else {
                    None
                },
            }
        },
    }
}

#[verifier::rlimit(100)]
pub proof fn lemma_record_tail_roundtrip(r: RecordV, rest: Seq<u8>)
    requires
        record_sizes_ok(r),
    ensures
        record_tail_dec(record_tail_enc(r) + rest) == Some::<(RecordV, nat)>(
            ((RecordV { length: 0, ..r }), record_tail_enc(r).len() as nat),
        ),
{
    reveal(record_tail_dec);
    let e_ts = varint64_enc(r.timestamp_delta);
    let e_off = varint32_enc(r.offset_delta);
    let e_k = octets_enc(r.key);
    let e_v = octets_enc(r.value);
    let e_hc = varint32_enc(r.headers.len() as i32);
    let e_hs = headers_enc(r.headers);
    let s5 = e_hs + rest;
    let s4 = e_hc + s5;
    let s3 = e_v + s4;
    let s2 = e_k + s3;
    let s1 = e_off + s2;
    let s0 = e_ts + s1;
    let s = record_tail_enc(r) + rest;
    assert(s =~= seq![r.attributes] + s0);
    assert(s[0] == r.attributes);
    assert(s.skip(1) =~= s0);
    lemma_varint64_roundtrip(r.timestamp_delta, s1);
    assert(s0.skip(e_ts.len() as int) =~= s1);
    lemma_varint32_roundtrip(r.offset_delta, s2);
    assert(s1.skip(e_off.len() as int) =~= s2);
    lemma_octets_roundtrip(r.key, s3);
    assert(s2.skip(e_k.len() as int) =~= s3);
    lemma_octets_roundtrip(r.value, s4);
    assert(s3.skip(e_v.len() as int) =~= s4);
    lemma_varint32_roundtrip(r.headers.len() as i32, s5);
    assert(s4.skip(e_hc.len() as int) =~= s5);
    lemma_headers_roundtrip(r.headers, rest);
    assert(record_tail_enc(r).len() == 1 + e_ts.len() + e_off.len() + e_k.len() + e_v.len()
        + e_hc.len() + e_hs.len());
}

// ===== executable codec: payloads and headers =====

/// Byte-for-byte copy of a payload.
fn clone_bytes(v: &Vec<u8>) -> (r: Vec<u8>)
    ensures
        r@ == v@,
{
    let mut out: Vec<u8> = Vec::new();
    let mut i: usize = 0;
    while i < v.len()
        invariant
            i <= v@.len(),
            out@ == v@.subrange(0, i as int),
        decreases v@.len() - i,
    {
        out.push(v[i]);
        proof {
            assert(out@ =~= v@.subrange(0, i + 1));
        }
        i = i + 1;
    }
    proof {
        assert(out@ =~= v@);
    }
    out
}

/// Copy of a nullable payload.
pub fn clone_opt_bytes(o: &Option<Vec<u8>>) -> (r: Option<Vec<u8>>)
    ensures
        r.deep_view() == o.deep_view(),
{
    match o {
        None => None,
        Some(v) => Some(clone_bytes(v)),
    }
}

/// Appends a whole payload.
pub(crate) fn push_bytes(out: &mut Vec<u8>, b: &Vec<u8>)
    ensures
        final(out)@ == old(out)@ + b@,
{
    let ghost base: Seq<u8> = out@;
    let mut i: usize = 0;
    while i < b.len()
        invariant
            i <= b@.len(),
            out@ == base + b@.subrange(0, i as int),
        decreases b@.len() - i,
    {
        out.push(b[i]);
        proof {
            assert(base + b@.subrange(0, i as int) + seq![b@[i as int]] =~= base + b@.subrange(
                0,
                i + 1,
            ));
        }
        i = i + 1;
    }
    proof {
        assert(base + b@.subrange(0, b@.len() as int) =~= base + b@);
    }
}

/// Appends a nullable byte sequence: zig-zag varint length, then the bytes.
pub fn encode_octets(out: &mut Vec<u8>, o: &Option<Vec<u8>>)
    requires
        octets_wf(o.deep_view()),
    ensures
        final(out)@ == old(out)@ + octets_enc(o.deep_view()),
{
    match o {
        None => encode_varint32(out, -1),
        Some(b) => {
            encode_varint32(out, b.len() as i32);
            push_bytes(out, b);
            proof {
                assert(final(out)@ =~= old(out)@ + octets_enc(o.deep_view()));
            }
        },
    }
}

/// Encoded size of a nullable byte sequence.
pub fn octets_size(o: &Option<Vec<u8>>) -> (r: u64)
    requires
        octets_wf(o.deep_view()),
    ensures
        r == octets_enc(o.deep_view()).len(),
        r <= 5 + MAX_RECORD_LEN,
{
    match o {
        None => varint32_len(-1) as u64,
        Some(b) => varint32_len(b.len() as i32) as u64 + b.len() as u64,
    }
}

/// Reads a nullable byte sequence at `pos`.
pub fn decode_octets(s: &[u8], pos: usize) -> (r: Result<(Option<Vec<u8>>, usize), Error>)
    requires
        pos <= s@.len(),
    ensures
        r is Ok <==> octets_dec(s@.skip(pos as int)) is Some,
        match r {
            Ok(p) => {
                &&& octets_dec(s@.skip(pos as int)) == Some::<(Option<Seq<u8>>, nat)>(
                    (p.0.deep_view(), p.1 as nat),
                )
                &&& 1 <= p.1
                &&& pos + p.1 <= s@.len()
            },
            Err(e) => e == Error::IncompleteFrame || e == Error::MalformedInput,
        },
{
    let (n, c) = match decode_varint32(s, pos) {
        Ok(p) => p,
        Err(e) => {
            return Err(e);
        },
    };
    if n == -1 {
        Ok((None, c))
    } else if n < 0 {
        Err(Error::MalformedInput)
    } else {
        let ln: usize = n as usize;
        let rem: usize = s.len() - (pos + c);
        if ln > rem {
            Err(Error::IncompleteFrame)
        } else {
            let sub: &[u8] = vstd::slice::slice_subrange(s, pos + c, pos + c + ln);
            let v: Vec<u8> = vstd::slice::slice_to_vec(sub);
            proof {
                let t = s@.skip(pos as int);
                assert(t.subrange(c as int, c + n) =~= s@.subrange(
                    pos + c,
                    pos + c + ln,
                ));
            }
            Ok((Some(v), c + ln))
        }
    }
}

/// Appends a header: its nullable key, then its nullable value.
pub fn encode_header(out: &mut Vec<u8>, h: &Header)
    requires
        header_wf(h@),
    ensures
        final(out)@ == old(out)@ + header_enc(h@),
{
    encode_octets(out, &h.key);
    encode_octets(out, &h.value);
    proof {
        assert(final(out)@ =~= old(out)@ + header_enc(h@));
    }
}

/// Encoded size of a header.
pub fn header_size(h: &Header) -> (r: u64)
    requires
        header_wf(h@),
    ensures
        r == header_enc(h@).len(),
        r <= 2 * (5 + MAX_RECORD_LEN),
{
    octets_size(&h.key) + octets_size(&h.value)
}

/// Reads a header at `pos`.
pub fn decode_header(s: &[u8], pos: usize) -> (r: Result<(Header, usize), Error>)
    requires
        pos <= s@.len(),
    ensures
        r is Ok <==> header_dec(s@.skip(pos as int)) is Some,
        match r {
            Ok(p) => {
                &&& header_dec(s@.skip(pos as int)) == Some::<(HeaderV, nat)>(
                    (p.0@, p.1 as nat),
                )
                &&& 1 <= p.1
                &&& pos + p.1 <= s@.len()
            },
            Err(e) => e == Error::IncompleteFrame || e == Error::MalformedInput,
        },
{
    let len: usize = s.len();
    let (k, c1) = match decode_octets(s, pos) {
        Ok(p) => p,
        Err(e) => {
            return Err(e);
        },
    };
    proof {
        assert(s@.skip(pos + c1) =~= s@.skip(pos as int).skip(c1 as int));
    }
    let (v, c2) = match decode_octets(s, pos + c1) {
        Ok(p) => p,
        Err(e) => {
            return Err(e);
        },
    };
    Ok((Header { key: k, value: v }, c1 + c2))
}

/// A one-header sequence encodes as that header alone.
proof fn lemma_headers_enc_one(h: HeaderV)
    ensures
        headers_enc(seq![h]) == header_enc(h),
{
    assert(seq![h].skip(1) =~= Seq::<HeaderV>::empty());
    assert(headers_enc(Seq::<HeaderV>::empty()) =~= Seq::<u8>::empty());
    assert(headers_enc(seq![h]) =~= header_enc(h));
}

/// Splitting a header sequence splits its encoding.
pub proof fn lemma_headers_enc_concat(a: Seq<HeaderV>, b: Seq<HeaderV>)
    ensures
        headers_enc(a + b) == headers_enc(a) + headers_enc(b),
    decreases a.len(),
{
    if a.len() == 0 {
        assert(a + b =~= b);
        assert(headers_enc(a) + headers_enc(b) =~= headers_enc(b));
    } else {
        assert((a + b).skip(1) =~= a.skip(1) + b);
        lemma_headers_enc_concat(a.skip(1), b);
        assert(headers_enc(a + b) =~= headers_enc(a) + headers_enc(b));
    }
}

/// The deep view of a header vector grows by the pushed header's view.
proof fn lemma_headers_deep_view_push(a: Vec<Header>, b: Vec<Header>, h: Header)
    requires
        b@ == a@.push(h),
    ensures
        b.deep_view() == a.deep_view().push(h@),
{
    assert(b.deep_view() =~= a.deep_view().push(h@));
}

// ===== executable record codec =====

impl Record {
    /// An empty builder.
    pub fn builder() -> (r: Builder)
        ensures
            r@ == (RecordV {
                length: 0,
                attributes: 0,
                timestamp_delta: 0,
                offset_delta: 0,
                key: None,
                value: None,
                headers: Seq::empty(),
            }),
    {
        let r = Builder {
            attributes: 0,
            timestamp_delta: 0,
            offset_delta: 0,
            key: None,
            value: None,
            headers: Vec::new(),
        };
        proof {
            assert(r@.headers =~= Seq::<HeaderV>::empty());
        }
        r
    }

    /// A copy of the record's key.
    pub fn key(&self) -> (r: Option<Vec<u8>>)
        ensures
            r.deep_view() == self@.key,
    {
        clone_opt_bytes(&self.key)
    }

    /// A copy of the record's value.
    pub fn value(&self) -> (r: Option<Vec<u8>>)
        ensures
            r.deep_view() == self@.value,
    {
        clone_opt_bytes(&self.value)
    }

    /// A record with a key and no value marks a deletion.
    pub fn is_tombstone(&self) -> (r: bool)
        ensures
            r == (self@.key is Some && self@.value is None),
    {
        self.key.is_some() && self.value.is_none()
    }

    /// Appends the record's wire form: the `length` varint, then the tail.
    #[verifier::rlimit(100)]
    #[verifier::spinoff_prover]
    pub fn encode(&self, out: &mut Vec<u8>)
        requires
            record_sizes_ok(self@),
        ensures
            final(out)@ == old(out)@ + record_enc(self@),
    {
        let ghost base: Seq<u8> = out@;
        encode_varint32(out, self.length);
        out.push(self.attributes);
        encode_varint64(out, self.timestamp_delta);
        encode_varint32(out, self.offset_delta);
        encode_octets(out, &self.key);
        encode_octets(out, &self.value);
        encode_varint32(out, self.headers.len() as i32);
        let ghost mid: Seq<u8> = out@;
        let mut i: usize = 0;
        while i < self.headers.len()
            invariant
                i <= self.headers@.len(),
                record_sizes_ok(self@),
                self@.headers == self.headers.deep_view(),
                out@ == mid + headers_enc(self@.headers.take(i as int)),
            decreases self.headers@.len() - i,
        {
            let ghost pre: Seq<HeaderV> = self@.headers.take(i as int);
            proof {
                assert(header_wf(self@.headers[i as int]));
                assert(self.headers@[i as int]@ == self@.headers[i as int]);
            }
            encode_header(out, &self.headers[i]);
            proof {
                assert(self@.headers.take(i + 1) =~= pre + seq![self@.headers[i as int]]);
                lemma_headers_enc_concat(pre, seq![self@.headers[i as int]]);
                lemma_headers_enc_one(self@.headers[i as int]);
                assert(out@ =~= mid + headers_enc(self@.headers.take(i + 1)));
            }
            i = i + 1;
        }
        proof {
            assert(self@.headers.take(self.headers@.len() as int) =~= self@.headers);
            assert(final(out)@ =~= base + record_enc(self@));
        }
    }
}

/// Reads a record at `pos`: the `length` varint, then exactly that many
/// bytes of tail.
#[verifier::rlimit(100)]
pub fn decode_record(s: &[u8], pos: usize) -> (r: Result<(Record, usize), Error>)
    requires
        pos <= s@.len(),
    ensures
        r is Ok <==> record_dec(s@.skip(pos as int)) is Some,
        match r {
            Ok(p) => {
                &&& record_dec(s@.skip(pos as int)) == Some::<(RecordV, nat)>(
                    (p.0@, p.1 as nat),
                )
                &&& 1 <= p.1
                &&& pos + p.1 <= s@.len()
            },
            Err(e) => {
                e == Error::IncompleteFrame || e == Error::MalformedInput || e
                    == Error::MalformedRecord
            },
        },
{
    proof {
        reveal(record_dec);
        reveal(record_tail_dec);
    }
    let len: usize = s.len();
    let ghost t: Seq<u8> = s@.skip(pos as int);
    let (length, n0) = match decode_varint32(s, pos) {
        Ok(p) => p,
        Err(e) => {
            return Err(e);
        },
    };
    if length < 0 {
        return Err(Error::MalformedRecord);
    }
    let p1: usize = pos + n0;
    let ghost t1: Seq<u8> = s@.skip(p1 as int);
    proof {
        assert(t1 =~= t.skip(n0 as int));
    }
    if p1 == len {
        return Err(Error::IncompleteFrame);
    }
    let attributes: u8 = s[p1];
    proof {
        assert(t1[0] == s@[p1 as int]);
        assert(t1.skip(1) =~= s@.skip(p1 + 1));
    }
    let (ts, c1) = match decode_varint64(s, p1 + 1) {
        Ok(p) => p,
        Err(e) => {
            return Err(e);
        },
    };
    proof {
        assert(s@.skip(p1 + 1).skip(c1 as int) =~= s@.skip(p1 + 1 + c1));
    }
    let (off, c2) = match decode_varint32(s, p1 + 1 + c1) {
        Ok(p) => p,
        Err(e) => {
            return Err(e);
        },
    };
    proof {
        assert(s@.skip(p1 + 1 + c1).skip(c2 as int) =~= s@.skip(p1 + 1 + c1 + c2));
    }
    let (key, c3) = match decode_octets(s, p1 + 1 + c1 + c2) {
        Ok(p) => p,
        Err(e) => {
            return Err(e);
        },
    };
    proof {
        assert(s@.skip(p1 + 1 + c1 + c2).skip(c3 as int) =~= s@.skip(p1 + 1 + c1 + c2 + c3));
    }
    let (value, c4) = match decode_octets(s, p1 + 1 + c1 + c2 + c3) {
        Ok(p) => p,
        Err(e) => {
            return Err(e);
        },
    };
    proof {
        assert(s@.skip(p1 + 1 + c1 + c2 + c3).skip(c4 as int) =~= s@.skip(
            p1 + 1 + c1 + c2 + c3 + c4,
        ));
    }
    let (hc, c5) = match decode_varint32(s, p1 + 1 + c1 + c2 + c3 + c4) {
        Ok(p) => p,
        Err(e) => {
            return Err(e);
        },
    };
    if hc < 0 {
        return Err(Error::MalformedRecord);
    }
    proof {
        assert(s@.skip(p1 + 1 + c1 + c2 + c3 + c4).skip(c5 as int) =~= s@.skip(
            p1 + 1 + c1 + c2 + c3 + c4 + c5,
        ));
    }
    let p6: usize = p1 + 1 + c1 + c2 + c3 + c4 + c5;
    let (headers, c6) = match decode_headers(s, p6, hc as usize) {
        Ok(p) => p,
        Err(e) => {
            return Err(e);
        },
    };
    let tail: usize = 1 + c1 + c2 + c3 + c4 + c5 + c6;
    let rec = Record {
        length,
        attributes,
        timestamp_delta: ts,
        offset_delta: off,
        key,
        value,
        headers,
    };
    if tail == length as usize {
        proof {
            assert(rec@ == (RecordV { length: length, ..record_tail_dec(t1)->Some_0.0 }));
        }
        Ok((rec, n0 + tail))
    } else {
        Err(Error::MalformedRecord)
    }
}

/// Reads `count` headers at `pos`.
pub fn decode_headers(s: &[u8], pos: usize, count: usize) -> (r: Result<
    (Vec<Header>, usize),
    Error,
>)
    requires
        pos <= s@.len(),
    ensures
        r is Ok <==> headers_dec(s@.skip(pos as int), count as nat) is Some,
        match r {
            Ok(p) => {
                &&& headers_dec(s@.skip(pos as int), count as nat) == Some::<
                    (Seq<HeaderV>, nat),
                >((p.0.deep_view(), p.1 as nat))
                &&& p.0@.len() == count
                &&& pos + p.1 <= s@.len()
            },
            Err(e) => e == Error::IncompleteFrame || e == Error::MalformedInput,
        },
{
    let ghost u0: Seq<u8> = s@.skip(pos as int);
    let len: usize = s.len();
    let mut acc: Vec<Header> = Vec::new();
    let mut cur: usize = pos;
    let mut i: usize = 0;
    proof {
        assert(acc.deep_view() =~= Seq::<HeaderV>::empty());
    }
    while i < count
        invariant
            pos <= cur <= len,
            len == s@.len(),
            i <= count,
            acc@.len() == i,
            u0 == s@.skip(pos as int),
            match headers_dec(s@.skip(cur as int), (count - i) as nat) {
                Some(tl) => headers_dec(u0, count as nat) == Some::<(Seq<HeaderV>, nat)>(
                    (acc.deep_view() + tl.0, ((cur - pos) + tl.1) as nat),
                ),
                None => headers_dec(u0, count as nat) is None,
            },
        decreases count - i,
    {
        let ghost ucur: Seq<u8> = s@.skip(cur as int);
        let ghost acc_pre: Vec<Header> = acc;
        let (h, n) = match decode_header(s, cur) {
            Ok(p) => p,
            Err(e) => {
                proof {
                    assert(headers_dec(ucur, (count - i) as nat) is None);
                }
                return Err(e);
            },
        };
        proof {
            assert(ucur.skip(n as int) =~= s@.skip(cur + n));
            let tl_next = headers_dec(s@.skip(cur + n), (count - i - 1) as nat);
            match tl_next {
                Some(tl) => {
                    assert(headers_dec(ucur, (count - i) as nat) == Some::<
                        (Seq<HeaderV>, nat),
                    >((seq![h@] + tl.0, (n + tl.1) as nat)));
                    assert(acc.deep_view() + (seq![h@] + tl.0) =~= (acc.deep_view()
                        + seq![h@]) + tl.0);
                    assert(acc.deep_view() + seq![h@] =~= acc.deep_view().push(h@));
                },
                None => {
                    assert(headers_dec(ucur, (count - i) as nat) is None);
                },
            }
        }
        acc.push(h);
        cur = cur + n;
        i = i + 1;
    }
    proof {
        assert(headers_dec(s@.skip(cur as int), 0) == Some::<(Seq<HeaderV>, nat)>(
            (Seq::empty(), 0),
        ));
        assert(acc.deep_view() + Seq::<HeaderV>::empty() =~= acc.deep_view());
    }
    Ok((acc, cur - pos))
}

// ===== the builder =====

/// Accumulates a record's fields; `build` computes the `length` field and
/// yields a well-formed [`Record`].
#[derive(Clone, Debug, PartialEq, Eq, Hash)]
pub struct Builder {
    attributes: u8,
    timestamp_delta: i64,
    offset_delta: i32,
    key: Option<Vec<u8>>,
    value: Option<Vec<u8>>,
    headers: Vec<Header>,
}

impl View for Builder {
    type V = RecordV;

    closed spec fn view(&self) -> RecordV {
        RecordV {
            length: 0,
            attributes: self.attributes,
            timestamp_delta: self.timestamp_delta,
            offset_delta: self.offset_delta,
            key: self.key.deep_view(),
            value: self.value.deep_view(),
            headers: self.headers.deep_view(),
        }
    }
}

impl DeepView for Builder {
    type V = RecordV;

    open spec fn deep_view(&self) -> RecordV {
        self.view()
    }
}

impl Builder {
    /// A builder holding an existing record's fields, ready to be altered
    /// and rebuilt.
    pub fn from_record(value: Record) -> (r: Builder)
        ensures
            r@ == (RecordV { length: 0, ..value@ }),
    {
        Builder {
            attributes: value.attributes,
            timestamp_delta: value.timestamp_delta,
            offset_delta: value.offset_delta,
            key: value.key,
            value: value.value,
            headers: value.headers,
        }
    }

    /// Sets the attributes byte.
    pub fn attributes(self, attributes: u8) -> (r: Self)
        ensures
            r@ == (RecordV { attributes, ..self@ }),
    {
        let mut b = self;
        b.attributes = attributes;
        b
    }

    /// Sets the timestamp delta, relative to the batch base timestamp.
    pub fn timestamp_delta(self, timestamp_delta: i64) -> (r: Self)
        ensures
            r@ == (RecordV { timestamp_delta, ..self@ }),
    {
        let mut b = self;
        b.timestamp_delta = timestamp_delta;
        b
    }

    /// Sets the offset delta, relative to the batch base offset.
    pub fn offset_delta(self, offset_delta: i32) -> (r: Self)
        ensures
            r@ == (RecordV { offset_delta, ..self@ }),
    {
        let mut b = self;
        b.offset_delta = offset_delta;
        b
    }

    /// Sets the nullable key.
    pub fn key(self, key: Option<Vec<u8>>) -> (r: Self)
        ensures
            r@ == (RecordV { key: key.deep_view(), ..self@ }),
    {
        let mut b = self;
        b.key = key;
        b
    }

    /// Sets the nullable value.
    pub fn value(self, value: Option<Vec<u8>>) -> (r: Self)
        ensures
            r@ == (RecordV { value: value.deep_view(), ..self@ }),
    {
        let mut b = self;
        b.value = value;
        b
    }

    /// Appends one header.
    pub fn header(self, header: Header) -> (r: Self)
        ensures
            r@ == (RecordV { headers: self@.headers.push(header@), ..self@ }),
    {
        let mut b = self;
        let ghost pre: Vec<Header> = b.headers;
        b.headers.push(header);
        proof {
            lemma_headers_deep_view_push(pre, b.headers, header);
        }
        b
    }

    /// The encoded size of the record's tail: every field after `length`.
    /// Fails when a payload or the header list cannot fit its wire length
    /// prefix, or the total exceeds what `length` can carry.
    pub fn size_in_bytes(&self) -> (r: Result<usize, Error>)
        ensures
            r is Ok <==> record_sizes_ok(self@) && record_tail_enc(self@).len()
                <= MAX_RECORD_LEN,
            match r {
                Ok(sz) => sz == record_tail_enc(self@).len(),
                Err(e) => e == Error::MalformedRecord,
            },
    {
        let ok_key: bool = match &self.key {
            None => true,
            Some(b) => b.len() <= MAX_RECORD_LEN,
        };
        let ok_value: bool = match &self.value {
            None => true,
            Some(b) => b.len() <= MAX_RECORD_LEN,
        };
        if !ok_key || !ok_value || self.headers.len() > MAX_RECORD_LEN {
            return Err(Error::MalformedRecord);
        }
        let mut total: u64 = 1;
        total = total + varint64_len(self.timestamp_delta) as u64;
        total = total + varint32_len(self.offset_delta) as u64;
        total = total + octets_size(&self.key);
        total = total + octets_size(&self.value);
        total = total + varint32_len(self.headers.len() as i32) as u64;
        let ghost head: nat = total as nat;
        proof {
            assert(head + headers_enc(self@.headers).len() == record_tail_enc(self@).len());
        }
        if total > MAX_RECORD_LEN as u64 {
            return Err(Error::MalformedRecord);
        }
        let mut i: usize = 0;
        while i < self.headers.len()
            invariant
                i <= self.headers@.len(),
                self@.headers == self.headers.deep_view(),
                record_sizes_ok_head(self@),
                self.headers@.len() <= MAX_RECORD_LEN,
                forall|k: int| 0 <= k < i ==> header_wf(#[trigger] self@.headers[k]),
                total as nat == head + headers_enc(self@.headers.take(i as int)).len(),
                head + headers_enc(self@.headers).len() == record_tail_enc(self@).len(),
                total <= MAX_RECORD_LEN as u64,
            decreases self.headers@.len() - i,
        {
            let ghost pre: Seq<HeaderV> = self@.headers.take(i as int);
            let h: &Header = &self.headers[i];
            let h_ok: bool = match &h.key {
                None => true,
                Some(b) => b.len() <= MAX_RECORD_LEN,
            } && match &h.value {
                None => true,
                Some(b) => b.len() <= MAX_RECORD_LEN,
            };
            if !h_ok {
                proof {
                    assert(!header_wf(self@.headers[i as int]));
                }
                return Err(Error::MalformedRecord);
            }
            let hs: u64 = header_size(h);
            proof {
                assert(self@.headers.take(i + 1) =~= pre + seq![self@.headers[i as int]]);
                lemma_headers_enc_concat(pre, seq![self@.headers[i as int]]);
                lemma_headers_enc_one(self@.headers[i as int]);
            }
            total = total + hs;
            if total > MAX_RECORD_LEN as u64 {
                proof {
                    lemma_headers_enc_prefix_len(self@.headers, (i + 1) as int);
                }
                return Err(Error::MalformedRecord);
            }
            i = i + 1;
        }
        proof {
            assert(self@.headers.take(self.headers@.len() as int) =~= self@.headers);
        }
        Ok(total as usize)
    }

    /// Computes the `length` field and assembles the record.
    pub fn build(self) -> (r: Result<Record, Error>)
        ensures
            r is Ok <==> record_sizes_ok(self@) && record_tail_enc(self@).len()
                <= MAX_RECORD_LEN,
            match r {
                Ok(rec) => {
                    &&& rec@ == (RecordV {
                        length: record_tail_enc(self@).len() as i32,
                        ..self@
                    })
                    &&& record_wf(rec@)
                },
                Err(e) => e == Error::MalformedRecord,
            },
    {
        let sz: usize = match self.size_in_bytes() {
            Ok(sz) => sz,
            Err(e) => {
                return Err(e);
            },
        };
        let rec = Record {
            length: sz as i32,
            attributes: self.attributes,
            timestamp_delta: self.timestamp_delta,
            offset_delta: self.offset_delta,
            key: self.key,
            value: self.value,
            headers: self.headers,
        };
        proof {
            assert(record_tail_enc(rec@) == record_tail_enc(self@));
        }
        Ok(rec)
    }
}

/// The key, value and header-count clauses of `record_sizes_ok`, without
/// the per-header ones: what `size_in_bytes` has checked before its loop.
pub open spec fn record_sizes_ok_head(r: RecordV) -> bool {
    &&& octets_wf(r.key)
    &&& octets_wf(r.value)
    &&& r.headers.len() <= MAX_RECORD_LEN
}

/// A prefix of a header sequence never encodes longer than the whole.
proof fn lemma_headers_enc_prefix_len(hs: Seq<HeaderV>, i: int)
    requires
        0 <= i <= hs.len(),
    ensures
        headers_enc(hs.take(i)).len() <= headers_enc(hs).len(),
{
    assert(hs =~= hs.take(i) + hs.skip(i));
    lemma_headers_enc_concat(hs.take(i), hs.skip(i));
}

/// Decoding inverts encoding for every well-formed record, whatever
/// follows it, and the encoded size is the `length` field plus its own
/// varint prefix.
#[verifier::rlimit(100)]
#[verifier::spinoff_prover]
pub proof fn lemma_record_roundtrip(r: RecordV, rest: Seq<u8>)
    requires
        record_wf(r),
    ensures
        record_dec(record_enc(r) + rest) == Some::<(RecordV, nat)>(
            (r, record_enc(r).len() as nat),
        ),
        record_enc(r).len() == r.length + varint32_enc(r.length).len(),
{
    reveal(record_dec);
    let s = record_enc(r) + rest;
    lemma_varint32_roundtrip(r.length, record_tail_enc(r) + rest);
    assert(s =~= varint32_enc(r.length) + (record_tail_enc(r) + rest));
    let n0 = varint32_enc(r.length).len() as int;
    assert(s.skip(n0) =~= record_tail_enc(r) + rest);
    lemma_record_tail_roundtrip(r, rest);
    assert((RecordV { length: r.length, ..(RecordV { length: 0, ..r }) }) == r);
}

// ===== count-prefixed record sequences =====

/// Every record in the sequence is well-formed.
pub open spec fn records_wf(rs: Seq<RecordV>) -> bool {
    forall|i: int| 0 <= i < rs.len() ==> record_wf(#[trigger] rs[i])
}

/// Every record's payloads fit their wire length prefixes.
pub open spec fn records_sizes_ok(rs: Seq<RecordV>) -> bool {
    forall|i: int| 0 <= i < rs.len() ==> record_sizes_ok(#[trigger] rs[i])
}

/// The records one after the other, with no count in front.
pub open spec fn records_cat(rs: Seq<RecordV>) -> Seq<u8>
    decreases rs.len(),
{
    if rs.len() == 0 {
        Seq::empty()
    } else {
        record_enc(rs[0]) + records_cat(rs.skip(1))
    }
}

/// A record sequence: a signed 32-bit big-endian count (never zig-zagged),
/// then the records.
pub open spec fn record_sequence_enc(rs: Seq<RecordV>) -> Seq<u8> {
    i32_enc(rs.len() as i32) + records_cat(rs)
}

/// `count` records read from the head of `s`.
pub open spec fn records_dec(s: Seq<u8>, count: nat) -> Option<(Seq<RecordV>, nat)>
    decreases count,
{
    if count == 0 {
        Some((Seq::empty(), 0))
    } else {
        match record_dec(s) {
            None => None,
            Some(h) => match records_dec(s.skip(h.1 as int), (count - 1) as nat) {
                None => None,
                Some(t) => Some((seq![h.0] + t.0, h.1 + t.1)),
            },
        }
    }
}

/// The record sequence at the head of `s`.
pub open spec fn record_sequence_dec(s: Seq<u8>) -> Option<(Seq<RecordV>, nat)> {
    if s.len() < 4 {
        None
    } else {
        let c = i32_of_u32(be_dec(s.subrange(0, 4)));
        if c < 0 {
            None
        } else {
            match records_dec(s.skip(4), c as nat) {
                None => None,
                Some(p) => Some((p.0, (4 + p.1) as nat)),
            }
        }
    }
}

/// A one-record sequence encodes as that record alone.
proof fn lemma_records_cat_one(r: RecordV)
    ensures
        records_cat(seq![r]) == record_enc(r),
{
    assert(seq![r].skip(1) =~= Seq::<RecordV>::empty());
    assert(records_cat(Seq::<RecordV>::empty()) =~= Seq::<u8>::empty());
    assert(records_cat(seq![r]) =~= record_enc(r));
}

/// Splitting a record sequence splits its encoding.
pub proof fn lemma_records_cat_concat(a: Seq<RecordV>, b: Seq<RecordV>)
    ensures
        records_cat(a + b) == records_cat(a) + records_cat(b),
    decreases a.len(),
{
    if a.len() == 0 {
        assert(a + b =~= b);
        assert(records_cat(a) + records_cat(b) =~= records_cat(b));
    } else {
        assert((a + b).skip(1) =~= a.skip(1) + b);
        lemma_records_cat_concat(a.skip(1), b);
        assert(records_cat(a + b) =~= records_cat(a) + records_cat(b));
    }
}

#[verifier::rlimit(100)]
#[verifier::spinoff_prover]
pub proof fn lemma_records_cat_roundtrip(rs: Seq<RecordV>, rest: Seq<u8>)
    requires
        records_wf(rs),
    ensures
        records_dec(records_cat(rs) + rest, rs.len()) == Some::<(Seq<RecordV>, nat)>(
            (rs, records_cat(rs).len() as nat),
        ),
    decreases rs.len(),
{
    if rs.len() == 0 {
        assert(records_cat(rs) + rest =~= rest);
        assert(rs =~= Seq::<RecordV>::empty());
    } else {
        let tail = rs.skip(1);
        lemma_record_roundtrip(rs[0], records_cat(tail) + rest);
        assert(records_cat(rs) + rest =~= record_enc(rs[0]) + (records_cat(tail) + rest));
        let c0 = record_enc(rs[0]).len();
        assert((records_cat(rs) + rest).skip(c0 as int) =~= records_cat(tail) + rest);
        assert(records_wf(tail)) by {
            assert(forall|i: int| 0 <= i < tail.len() ==> #[trigger] tail[i] == rs[i + 1]);
        }
        lemma_records_cat_roundtrip(tail, rest);
        assert(seq![rs[0]] + tail =~= rs);
    }
}

/// Decoding inverts encoding for every sequence of well-formed records.
pub proof fn lemma_record_sequence_roundtrip(rs: Seq<RecordV>, rest: Seq<u8>)
    requires
        records_wf(rs),
        rs.len() <= MAX_RECORD_LEN,
    ensures
        record_sequence_dec(record_sequence_enc(rs) + rest) == Some::<(Seq<RecordV>, nat)>(
            (rs, record_sequence_enc(rs).len() as nat),
        ),
{
    let s = record_sequence_enc(rs) + rest;
    let c = rs.len() as i32;
    lemma_i32_roundtrip(c);
    assert(s.subrange(0, 4) =~= i32_enc(c));
    assert(s.skip(4) =~= records_cat(rs) + rest);
    lemma_records_cat_roundtrip(rs, rest);
}

/// Appends a record sequence: the count, then each record.
pub fn encode_record_sequence(out: &mut Vec<u8>, records: &Vec<Record>)
    requires
        records_sizes_ok(records.deep_view()),
        records@.len() <= MAX_RECORD_LEN,
    ensures
        final(out)@ == old(out)@ + record_sequence_enc(records.deep_view()),
{
    let ghost base: Seq<u8> = out@;
    let ghost rsv: Seq<RecordV> = records.deep_view();
    push_i32(out, records.len() as i32);
    let ghost mid: Seq<u8> = out@;
    let mut i: usize = 0;
    while i < records.len()
        invariant
            i <= records@.len(),
            rsv == records.deep_view(),
            records_sizes_ok(rsv),
            out@ == mid + records_cat(rsv.take(i as int)),
        decreases records@.len() - i,
    {
        let ghost pre: Seq<RecordV> = rsv.take(i as int);
        proof {
            assert(record_sizes_ok(rsv[i as int]));
            assert(records[i as int]@ == rsv[i as int]);
        }
        records[i].encode(out);
        proof {
            assert(rsv.take(i + 1) =~= pre + seq![rsv[i as int]]);
            lemma_records_cat_concat(pre, seq![rsv[i as int]]);
            lemma_records_cat_one(rsv[i as int]);
            assert(out@ =~= mid + records_cat(rsv.take(i + 1)));
        }
        i = i + 1;
    }
    proof {
        assert(rsv.take(records@.len() as int) =~= rsv);
        assert(final(out)@ =~= base + record_sequence_enc(rsv));
    }
}

/// Encoded size of a record sequence of well-formed records.
#[verifier::rlimit(100)]
#[verifier::spinoff_prover]
pub fn record_sequence_size(records: &Vec<Record>) -> (r: u64)
    requires
        records_wf(records.deep_view()),
        records@.len() <= MAX_RECORD_LEN,
    ensures
        r == record_sequence_enc(records.deep_view()).len(),
        r < 0x8000_0000_0000_0000,
{
    let ghost rsv: Seq<RecordV> = records.deep_view();
    let mut total: u64 = 4;
    let mut i: usize = 0;
    while i < records.len()
        invariant
            i <= records@.len(),
            rsv == records.deep_view(),
            records_wf(rsv),
            records@.len() <= MAX_RECORD_LEN,
            total as nat == 4 + records_cat(rsv.take(i as int)).len(),
            total <= 4 + i * 0x8000_0004,
        decreases records@.len() - i,
    {
        let ghost pre: Seq<RecordV> = rsv.take(i as int);
        proof {
            assert(record_wf(rsv[i as int]));
            assert(records[i as int]@ == rsv[i as int]);
            assert(rsv.take(i + 1) =~= pre + seq![rsv[i as int]]);
            lemma_records_cat_concat(pre, seq![rsv[i as int]]);
            lemma_records_cat_one(rsv[i as int]);
        }
        let rec: &Record = &records[i];
        let sz: u64 = varint32_len(rec.length) as u64 + rec.length as u64;
        total = total + sz;
        i = i + 1;
    }
    proof {
        assert(rsv.take(records@.len() as int) =~= rsv);
        lemma_i32_roundtrip(records@.len() as i32);
    }
    total
}

/// Reads a record sequence at `pos`: the count, then that many records.
pub fn decode_record_sequence(s: &[u8], pos: usize) -> (r: Result<(Vec<Record>, usize), Error>)
    requires
        pos <= s@.len(),
    ensures
        r is Ok <==> record_sequence_dec(s@.skip(pos as int)) is Some,
        match r {
            Ok(p) => {
                &&& record_sequence_dec(s@.skip(pos as int)) == Some::<(Seq<RecordV>, nat)>(
                    (p.0.deep_view(), p.1 as nat),
                )
                &&& pos + p.1 <= s@.len()
            },
            Err(e) => {
                e == Error::IncompleteFrame || e == Error::MalformedInput || e
                    == Error::MalformedRecord
            },
        },
{
    let len: usize = s.len();
    let ghost t: Seq<u8> = s@.skip(pos as int);
    if len - pos < 4 {
        return Err(Error::IncompleteFrame);
    }
    proof {
        assert(t.subrange(0, 4) =~= s@.subrange(pos as int, pos + 4));
    }
    let count: i32 = read_i32(s, pos);
    if count < 0 {
        return Err(Error::MalformedInput);
    }
    proof {
        assert(t.skip(4) =~= s@.skip(pos + 4));
    }
    let (records, used) = match decode_records(s, pos + 4, count as usize) {
        Ok(p) => p,
        Err(e) => {
            return Err(e);
        },
    };
    Ok((records, 4 + used))
}

/// Reads `count` records at `pos`.
#[verifier::rlimit(100)]
#[verifier::spinoff_prover]
pub fn decode_records(s: &[u8], pos: usize, count: usize) -> (r: Result<
    (Vec<Record>, usize),
    Error,
>)
    requires
        pos <= s@.len(),
    ensures
        r is Ok <==> records_dec(s@.skip(pos as int), count as nat) is Some,
        match r {
            Ok(p) => {
                &&& records_dec(s@.skip(pos as int), count as nat) == Some::<
                    (Seq<RecordV>, nat),
                >((p.0.deep_view(), p.1 as nat))
                &&& p.0@.len() == count
                &&& pos + p.1 <= s@.len()
            },
            Err(e) => {
                e == Error::IncompleteFrame || e == Error::MalformedInput || e
                    == Error::MalformedRecord
            },
        },
{
    let ghost u0: Seq<u8> = s@.skip(pos as int);
    let len: usize = s.len();
    let mut acc: Vec<Record> = Vec::new();
    let mut cur: usize = pos;
    let mut i: usize = 0;
    proof {
        assert(acc.deep_view() =~= Seq::<RecordV>::empty());
    }
    while i < count
        invariant
            pos <= cur <= len,
            len == s@.len(),
            i <= count,
            acc@.len() == i,
            u0 == s@.skip(pos as int),
            match records_dec(s@.skip(cur as int), (count - i) as nat) {
                Some(tl) => records_dec(u0, count as nat) == Some::<(Seq<RecordV>, nat)>(
                    (acc.deep_view() + tl.0, ((cur - pos) + tl.1) as nat),
                ),
                None => records_dec(u0, count as nat) is None,
            },
        decreases count - i,
    {
        let ghost ucur: Seq<u8> = s@.skip(cur as int);
        let ghost acc_pre: Vec<Record> = acc;
        let (rec, n) = match decode_record(s, cur) {
            Ok(p) => p,
            Err(e) => {
                proof {
                    assert(records_dec(ucur, (count - i) as nat) is None);
                }
                return Err(e);
            },
        };
        proof {
            assert(ucur.skip(n as int) =~= s@.skip(cur + n));
            let tl_next = records_dec(s@.skip(cur + n), (count - i - 1) as nat);
            match tl_next {
                Some(tl) => {
                    assert(records_dec(ucur, (count - i) as nat) == Some::<
                        (Seq<RecordV>, nat),
                    >((seq![rec@] + tl.0, (n + tl.1) as nat)));
                    assert(acc.deep_view() + (seq![rec@] + tl.0) =~= (acc.deep_view()
                        + seq![rec@]) + tl.0);
                    assert(acc.deep_view() + seq![rec@] =~= acc.deep_view().push(rec@));
                },
                None => {
                    assert(records_dec(ucur, (count - i) as nat) is None);
                },
            }
        }
        acc.push(rec);
        proof {
            assert(acc.deep_view() =~= acc_pre.deep_view().push(
                acc@[acc@.len() - 1]@,
            ));
        }
        cur = cur + n;
        i = i + 1;
    }
    proof {
        assert(records_dec(s@.skip(cur as int), 0) == Some::<(Seq<RecordV>, nat)>(
            (Seq::empty(), 0),
        ));
        assert(acc.deep_view() + Seq::<RecordV>::empty() =~= acc.deep_view());
    }
    Ok((acc, cur - pos))
}

} // verus!
