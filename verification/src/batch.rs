//! The record batch (magic 2): the unit of physical persistence and
//! transport. `batch_length` counts every byte from the partition leader
//! epoch onward, and `crc` is CRC-32C over every byte from the attributes
//! word to the end of the records.
//!
//! Of the compression codecs the attributes word can name, this broker
//! supports `none` alone: a batch whose compression bits are set is
//! rejected on decode with `UnsupportedCompression`.

use vstd::prelude::*;

verus! {

use crate::error::Error;
use crate::record::Record;
use crate::record::RecordV;
use crate::record::Builder;
use crate::record::records_wf;
use crate::record::records_sizes_ok;
use crate::record::record_wf;
use crate::record::record_sizes_ok;
use crate::record::record_tail_enc;
use crate::record::record_sequence_enc;
use crate::record::records_cat;
use crate::record::records_dec;
use crate::record::encode_record_sequence;
use crate::record::record_sequence_size;
use crate::record::decode_records;
use crate::record::lemma_records_cat_roundtrip;
use crate::record::MAX_RECORD_LEN;
use crate::wire::i64_enc;
use crate::wire::i32_enc;
use crate::wire::i16_enc;
use crate::wire::i8_enc;
use crate::wire::u32_enc;
use crate::wire::push_i64;
use crate::wire::push_i32;
use crate::wire::push_i16;
use crate::wire::push_i8;
use crate::wire::push_u32;
use crate::wire::read_i64;
use crate::wire::read_i32;
use crate::wire::read_i16;
use crate::wire::read_u32;
use crate::wire::i8_val;
use crate::wire::be_dec;
use crate::wire::i64_of_u64;
use crate::wire::i32_of_u32;
use crate::wire::i16_of_u16;
use crate::wire::i8_of_u8;
use crate::wire::u16_of_i16;
use crate::wire::u16_cell;
use crate::wire::lemma_i64_roundtrip;
use crate::wire::lemma_i32_roundtrip;
use crate::wire::lemma_i16_roundtrip;
use crate::wire::lemma_i8_roundtrip;
use crate::wire::lemma_u32_roundtrip;

/// Bytes of the fixed-width fields before the records: `base_offset`
/// through the record count.
pub const BATCH_HEAD_LEN: usize = 61;

/// Bytes that `batch_length` counts besides the records: partition leader
/// epoch, magic, crc, and the crc region's fixed fields with the count.
pub const BATCH_LENGTH_OVERHEAD: usize = 49;

// ===== the CRC-32C checksum =====

/// CRC-32C (Castagnoli polynomial) of a byte sequence, as the `crc` crate
/// computes it.
pub uninterp spec fn crc32c_of(bytes: Seq<u8>) -> u32;

/// Relies on `crc::Crc::<u32>::checksum` with the `CRC_32_ISCSI` algorithm
/// (CRC-32C, the Castagnoli polynomial): the checksum is a function of the
/// input bytes alone.
#[verifier::external_body]
pub(crate) fn crc32c(bytes: &[u8]) -> (r: u32)
    ensures
        r == crc32c_of(bytes@),
{
    crc::Crc::<u32>::new(&crc::CRC_32_ISCSI).checksum(bytes)
}

// ===== the batch =====

/// Mathematical value of a [`Batch`].
pub struct BatchV {
    pub base_offset: i64,
    pub batch_length: i32,
    pub partition_leader_epoch: i32,
    pub magic: i8,
    pub crc: u32,
    pub attributes: i16,
    pub last_offset_delta: i32,
    pub base_timestamp: i64,
    pub max_timestamp: i64,
    pub producer_id: i64,
    pub producer_epoch: i16,
    pub base_sequence: i32,
    pub records: Seq<RecordV>,
}

/// A record batch in wire order. Bits 0–2 of `attributes` name the
/// compression codec, bit 3 the timestamp type, bit 4 transactional,
/// bit 5 control.
#[derive(Clone, Debug, PartialEq, Eq, Hash)]
pub struct Batch {
    pub base_offset: i64,
    pub batch_length: i32,
    pub partition_leader_epoch: i32,
    pub magic: i8,
    pub crc: u32,
    pub attributes: i16,
    pub last_offset_delta: i32,
    pub base_timestamp: i64,
    pub max_timestamp: i64,
    pub producer_id: i64,
    pub producer_epoch: i16,
    pub base_sequence: i32,
    pub records: Vec<Record>,
}

impl View for Batch {
    type V = BatchV;

    open spec fn view(&self) -> BatchV {
        BatchV {
            base_offset: self.base_offset,
            batch_length: self.batch_length,
            partition_leader_epoch: self.partition_leader_epoch,
            magic: self.magic,
            crc: self.crc,
            attributes: self.attributes,
            last_offset_delta: self.last_offset_delta,
            base_timestamp: self.base_timestamp,
            max_timestamp: self.max_timestamp,
            producer_id: self.producer_id,
            producer_epoch: self.producer_epoch,
            base_sequence: self.base_sequence,
            records: self.records.deep_view(),
        }
    }
}

impl DeepView for Batch {
    type V = BatchV;

    open spec fn deep_view(&self) -> BatchV {
        self.view()
    }
}

/// The compression bits of the attributes word name the codec `none`.
pub open spec fn compression_none(attributes: i16) -> bool {
    u16_of_i16(attributes) % 8 == 0
}

/// The byte range the CRC protects: attributes through the last record.
pub open spec fn crc_region_enc(b: BatchV) -> Seq<u8> {
    i16_enc(b.attributes) + i32_enc(b.last_offset_delta) + i64_enc(b.base_timestamp)
        + i64_enc(b.max_timestamp) + i64_enc(b.producer_id) + i16_enc(b.producer_epoch)
        + i32_enc(b.base_sequence) + record_sequence_enc(b.records)
}

/// Full wire form of a batch.
pub open spec fn batch_enc(b: BatchV) -> Seq<u8> {
    i64_enc(b.base_offset) + i32_enc(b.batch_length) + i32_enc(b.partition_leader_epoch)
        + i8_enc(b.magic) + u32_enc(b.crc) + crc_region_enc(b)
}

/// The batch's records fit their wire length prefixes.
pub open spec fn batch_sizes_ok(b: BatchV) -> bool {
    &&& records_sizes_ok(b.records)
    &&& b.records.len() <= MAX_RECORD_LEN
}

/// A well-formed batch: magic 2, uncompressed, well-formed records, and
/// `batch_length` and `crc` holding what the wire invariants demand.
pub open spec fn batch_wf(b: BatchV) -> bool {
    &&& records_wf(b.records)
    &&& b.records.len() <= MAX_RECORD_LEN
    &&& b.magic == 2
    &&& compression_none(b.attributes)
    &&& b.batch_length == BATCH_LENGTH_OVERHEAD + records_cat(b.records).len()
    &&& BATCH_LENGTH_OVERHEAD + records_cat(b.records).len() <= MAX_RECORD_LEN
    &&& b.crc == crc32c_of(crc_region_enc(b))
}

/// The batch at the head of `s`. The CRC is verified first, over the byte
/// range `batch_length` announces; then `magic` must be 2, the compression
/// bits must name `none`, and the records must span exactly that range.
pub open spec fn batch_dec(s: Seq<u8>) -> Option<(BatchV, nat)> {
    if s.len() < BATCH_HEAD_LEN {
        None
    } else {
        let batch_length = i32_of_u32(be_dec(s.subrange(8, 12)));
        let crc = be_dec(s.subrange(17, 21));
        if batch_length < BATCH_LENGTH_OVERHEAD || 12 + batch_length > s.len() {
            None
        } else {
            let end = 12 + batch_length;
            let count = i32_of_u32(be_dec(s.subrange(57, 61)));
            let magic = i8_of_u8(s[16]);
            let attributes = i32_to_i16_v(i16_of_u16(be_dec(s.subrange(21, 23))));
            if crc != crc32c_of(s.subrange(21, end)) {
                None
            } else if magic != 2 {
                None
            } else if !compression_none(attributes) {
                None
            } else if count < 0 {
                None
            } else {
                match records_dec(s.skip(61), count as nat) {
                    None => None,
                    Some(p) => {
                        let b = BatchV {
                            base_offset: i64_of_u64(be_dec(s.subrange(0, 8))) as i64,
                            batch_length: batch_length as i32,
                            partition_leader_epoch: i32_of_u32(
                                be_dec(s.subrange(12, 16)),
                            ) as i32,
                            magic: magic as i8,
                            crc: crc as u32,
                            attributes: attributes,
                            last_offset_delta: i32_of_u32(be_dec(s.subrange(23, 27))) as i32,
                            base_timestamp: i64_of_u64(be_dec(s.subrange(27, 35))) as i64,
                            max_timestamp: i64_of_u64(be_dec(s.subrange(35, 43))) as i64,
                            producer_id: i64_of_u64(be_dec(s.subrange(43, 51))) as i64,
                            producer_epoch: i16_of_u16(be_dec(s.subrange(51, 53))) as i16,
                            base_sequence: i32_of_u32(be_dec(s.subrange(53, 57))) as i32,
                            records: p.0,
                        };
                        if 61 + p.1 == end {
                            Some((b, end as nat))
                        } else {
                            None
                        }
                    },
                }
            }
        }
    }
}

/// An in-range value read back as an `i16`.
pub open spec fn i32_to_i16_v(v: int) -> i16 {
    v as i16
}

/// The offsets of each encoded field within `batch_enc(b)`.
#[verifier::rlimit(100)]
#[verifier::spinoff_prover]
proof fn lemma_batch_enc_layout(b: BatchV, rest: Seq<u8>)
    ensures
        ({
            let s = batch_enc(b) + rest;
            &&& s.subrange(0, 8) == i64_enc(b.base_offset)
            &&& s.subrange(8, 12) == i32_enc(b.batch_length)
            &&& s.subrange(12, 16) == i32_enc(b.partition_leader_epoch)
            &&& s.subrange(16, 17) == i8_enc(b.magic)
            &&& s.subrange(17, 21) == u32_enc(b.crc)
            &&& s.subrange(21, 23) == i16_enc(b.attributes)
            &&& s.subrange(23, 27) == i32_enc(b.last_offset_delta)
            &&& s.subrange(27, 35) == i64_enc(b.base_timestamp)
            &&& s.subrange(35, 43) == i64_enc(b.max_timestamp)
            &&& s.subrange(43, 51) == i64_enc(b.producer_id)
            &&& s.subrange(51, 53) == i16_enc(b.producer_epoch)
            &&& s.subrange(53, 57) == i32_enc(b.base_sequence)
            &&& s.subrange(57, 61) == i32_enc(b.records.len() as i32)
            &&& s.skip(61) == records_cat(b.records) + rest
            &&& s.subrange(21, 61 + records_cat(b.records).len() as int) == crc_region_enc(b)
            &&& batch_enc(b).len() == 61 + records_cat(b.records).len()
        }),
{
    let s = batch_enc(b) + rest;
    lemma_i64_roundtrip(b.base_offset);
    lemma_i64_roundtrip(b.base_timestamp);
    lemma_i64_roundtrip(b.max_timestamp);
    lemma_i64_roundtrip(b.producer_id);
    lemma_i32_roundtrip(b.batch_length);
    lemma_i32_roundtrip(b.partition_leader_epoch);
    lemma_i32_roundtrip(b.last_offset_delta);
    lemma_i32_roundtrip(b.base_sequence);
    lemma_i32_roundtrip(b.records.len() as i32);
    lemma_i16_roundtrip(b.attributes);
    lemma_i16_roundtrip(b.producer_epoch);
    lemma_i8_roundtrip(b.magic);
    lemma_u32_roundtrip(b.crc);
    assert(s.subrange(0, 8) =~= i64_enc(b.base_offset));
    assert(s.subrange(8, 12) =~= i32_enc(b.batch_length));
    assert(s.subrange(12, 16) =~= i32_enc(b.partition_leader_epoch));
    assert(s.subrange(16, 17) =~= i8_enc(b.magic));
    assert(s.subrange(17, 21) =~= u32_enc(b.crc));
    assert(s.subrange(21, 23) =~= i16_enc(b.attributes));
    assert(s.subrange(23, 27) =~= i32_enc(b.last_offset_delta));
    assert(s.subrange(27, 35) =~= i64_enc(b.base_timestamp));
    assert(s.subrange(35, 43) =~= i64_enc(b.max_timestamp));
    assert(s.subrange(43, 51) =~= i64_enc(b.producer_id));
    assert(s.subrange(51, 53) =~= i16_enc(b.producer_epoch));
    assert(s.subrange(53, 57) =~= i32_enc(b.base_sequence));
    assert(s.subrange(57, 61) =~= i32_enc(b.records.len() as i32));
    assert(s.skip(61) =~= records_cat(b.records) + rest);
    assert(s.subrange(21, 61 + records_cat(b.records).len() as int) =~= crc_region_enc(b));
}

/// Decoding inverts encoding for every well-formed batch, whatever follows
/// it.
#[verifier::rlimit(100)]
#[verifier::spinoff_prover]
pub proof fn lemma_batch_roundtrip(b: BatchV, rest: Seq<u8>)
    requires
        batch_wf(b),
    ensures
        batch_dec(batch_enc(b) + rest) == Some::<(BatchV, nat)>(
            (b, batch_enc(b).len() as nat),
        ),
{
    let s = batch_enc(b) + rest;
    lemma_batch_enc_layout(b, rest);
    lemma_i64_roundtrip(b.base_offset);
    lemma_i64_roundtrip(b.base_timestamp);
    lemma_i64_roundtrip(b.max_timestamp);
    lemma_i64_roundtrip(b.producer_id);
    lemma_i32_roundtrip(b.batch_length);
    lemma_i32_roundtrip(b.partition_leader_epoch);
    lemma_i32_roundtrip(b.last_offset_delta);
    lemma_i32_roundtrip(b.base_sequence);
    lemma_i32_roundtrip(b.records.len() as i32);
    lemma_i16_roundtrip(b.attributes);
    lemma_i16_roundtrip(b.producer_epoch);
    lemma_i8_roundtrip(b.magic);
    lemma_u32_roundtrip(b.crc);
    assert(s[16] == i8_enc(b.magic)[0]);
    lemma_records_cat_roundtrip(b.records, rest);
    assert(records_dec(s.skip(61), b.records.len()) == Some::<(Seq<RecordV>, nat)>(
        (b.records, records_cat(b.records).len() as nat),
    ));
}

// ===== executable batch codec =====

impl Batch {
    /// An empty builder with magic 2 and zeroed fields.
    pub fn builder() -> (r: BatchBuilder)
        ensures
            r@ == (BatchBuilderV {
                base_offset: 0,
                partition_leader_epoch: 0,
                magic: 2,
                attributes: 0,
                last_offset_delta: 0,
                base_timestamp: 0,
                max_timestamp: 0,
                producer_id: 0,
                producer_epoch: 0,
                base_sequence: 0,
                records: Seq::empty(),
            }),
    {
        let r = BatchBuilder {
            base_offset: 0,
            partition_leader_epoch: 0,
            magic: 2,
            attributes: 0,
            last_offset_delta: 0,
            base_timestamp: 0,
            max_timestamp: 0,
            producer_id: 0,
            producer_epoch: 0,
            base_sequence: 0,
            records: Vec::new(),
        };
        proof {
            assert(r@.records =~= Seq::<RecordV>::empty());
        }
        r
    }

    /// Appends the batch's wire form.
    #[verifier::rlimit(100)]
    #[verifier::spinoff_prover]
    pub fn encode(&self, out: &mut Vec<u8>)
        requires
            batch_sizes_ok(self@),
        ensures
            final(out)@ == old(out)@ + batch_enc(self@),
    {
        let ghost base: Seq<u8> = out@;
        push_i64(out, self.base_offset);
        push_i32(out, self.batch_length);
        push_i32(out, self.partition_leader_epoch);
        push_i8(out, self.magic);
        push_u32(out, self.crc);
        push_i16(out, self.attributes);
        push_i32(out, self.last_offset_delta);
        push_i64(out, self.base_timestamp);
        push_i64(out, self.max_timestamp);
        push_i64(out, self.producer_id);
        push_i16(out, self.producer_epoch);
        push_i32(out, self.base_sequence);
        encode_record_sequence(out, &self.records);
        proof {
            assert(final(out)@ =~= base + batch_enc(self@));
        }
    }
}

/// Reads a batch at `pos`: fixed fields, records, then the CRC and length
/// checks. A compression codec other than `none` is refused.
#[verifier::rlimit(100)]
#[verifier::spinoff_prover]
pub fn decode_batch(s: &[u8], pos: usize) -> (r: Result<(Batch, usize), Error>)
    requires
        pos <= s@.len(),
    ensures
        r is Ok <==> batch_dec(s@.skip(pos as int)) is Some,
        match r {
            Ok(p) => {
                &&& batch_dec(s@.skip(pos as int)) == Some::<(BatchV, nat)>(
                    (p.0@, p.1 as nat),
                )
                &&& pos + p.1 <= s@.len()
            },
            Err(e) => {
                e == Error::IncompleteFrame || e == Error::MalformedInput || e
                    == Error::MalformedRecord || e == Error::UnsupportedCompression
            },
        },
{
    let len: usize = s.len();
    let ghost t: Seq<u8> = s@.skip(pos as int);
    if len - pos < BATCH_HEAD_LEN {
        return Err(Error::IncompleteFrame);
    }
    proof {
        assert(t.subrange(0, 8) =~= s@.subrange(pos as int, pos + 8));
        assert(t.subrange(8, 12) =~= s@.subrange(pos + 8, pos + 12));
        assert(t.subrange(12, 16) =~= s@.subrange(pos + 12, pos + 16));
        assert(t[16] == s@[pos + 16]);
        assert(t.subrange(17, 21) =~= s@.subrange(pos + 17, pos + 21));
        assert(t.subrange(21, 23) =~= s@.subrange(pos + 21, pos + 23));
        assert(t.subrange(23, 27) =~= s@.subrange(pos + 23, pos + 27));
        assert(t.subrange(27, 35) =~= s@.subrange(pos + 27, pos + 35));
        assert(t.subrange(35, 43) =~= s@.subrange(pos + 35, pos + 43));
        assert(t.subrange(43, 51) =~= s@.subrange(pos + 43, pos + 51));
        assert(t.subrange(51, 53) =~= s@.subrange(pos + 51, pos + 53));
        assert(t.subrange(53, 57) =~= s@.subrange(pos + 53, pos + 57));
        assert(t.subrange(57, 61) =~= s@.subrange(pos + 57, pos + 61));
        assert(t.skip(61) =~= s@.skip(pos + 61));
    }
    let base_offset: i64 = read_i64(s, pos);
    let batch_length: i32 = read_i32(s, pos + 8);
    let partition_leader_epoch: i32 = read_i32(s, pos + 12);
    let magic: i8 = i8_val(s[pos + 16]);
    let crc_field: u32 = read_u32(s, pos + 17);
    let attributes: i16 = read_i16(s, pos + 21);
    let last_offset_delta: i32 = read_i32(s, pos + 23);
    let base_timestamp: i64 = read_i64(s, pos + 27);
    let max_timestamp: i64 = read_i64(s, pos + 35);
    let producer_id: i64 = read_i64(s, pos + 43);
    let producer_epoch: i16 = read_i16(s, pos + 51);
    let base_sequence: i32 = read_i32(s, pos + 53);
    let count: i32 = read_i32(s, pos + 57);
    if batch_length < BATCH_LENGTH_OVERHEAD as i32 {
        return Err(Error::MalformedInput);
    }
    if batch_length as usize > len - (pos + 12) {
        return Err(Error::IncompleteFrame);
    }
    let end: usize = 12 + batch_length as usize;
    // the CRC is verified before anything else is interpreted
    let region: &[u8] = vstd::slice::slice_subrange(s, pos + 21, pos + end);
    let crc_computed: u32 = crc32c(region);
    proof {
        assert(region@ =~= t.subrange(21, end as int));
    }
    if crc_computed != crc_field {
        return Err(Error::MalformedInput);
    }
    if magic != 2 {
        return Err(Error::MalformedInput);
    }
    if u16_cell(attributes) % 8 != 0 {
        return Err(Error::UnsupportedCompression);
    }
    if count < 0 {
        return Err(Error::MalformedInput);
    }
    let (records, used) = match decode_records(s, pos + 61, count as usize) {
        Ok(p) => p,
        Err(e) => {
            return Err(e);
        },
    };
    if 61 + used != end {
        return Err(Error::MalformedInput);
    }
    let batch = Batch {
        base_offset,
        batch_length,
        partition_leader_epoch,
        magic,
        crc: crc_field,
        attributes,
        last_offset_delta,
        base_timestamp,
        max_timestamp,
        producer_id,
        producer_epoch,
        base_sequence,
        records,
    };
    Ok((batch, end))
}

// ===== the batch builder =====

/// Mathematical value of a [`BatchBuilder`]: the fixed fields as set so
/// far, and each pending record builder's fields.
pub struct BatchBuilderV {
    pub base_offset: i64,
    pub partition_leader_epoch: i32,
    pub magic: i8,
    pub attributes: i16,
    pub last_offset_delta: i32,
    pub base_timestamp: i64,
    pub max_timestamp: i64,
    pub producer_id: i64,
    pub producer_epoch: i16,
    pub base_sequence: i32,
    pub records: Seq<RecordV>,
}

/// Accumulates a batch's fields and record builders; `build` computes
/// each record's length, the `batch_length`, and the CRC.
#[derive(Clone, Debug, PartialEq, Eq, Hash)]
pub struct BatchBuilder {
    base_offset: i64,
    partition_leader_epoch: i32,
    magic: i8,
    attributes: i16,
    last_offset_delta: i32,
    base_timestamp: i64,
    max_timestamp: i64,
    producer_id: i64,
    producer_epoch: i16,
    base_sequence: i32,
    records: Vec<Builder>,
}

impl View for BatchBuilder {
    type V = BatchBuilderV;

    closed spec fn view(&self) -> BatchBuilderV {
        BatchBuilderV {
            base_offset: self.base_offset,
            partition_leader_epoch: self.partition_leader_epoch,
            magic: self.magic,
            attributes: self.attributes,
            last_offset_delta: self.last_offset_delta,
            base_timestamp: self.base_timestamp,
            max_timestamp: self.max_timestamp,
            producer_id: self.producer_id,
            producer_epoch: self.producer_epoch,
            base_sequence: self.base_sequence,
            records: self.records.deep_view(),
        }
    }
}

/// The deep view of a builder vector loses its head on `remove(0)`.
proof fn lemma_builders_deep_view_remove(a: Vec<Builder>, b: Vec<Builder>)
    requires
        a@.len() > 0,
        b@ == a@.remove(0),
    ensures
        b.deep_view() == a.deep_view().skip(1),
{
    assert forall|k: int| 0 <= k < b@.len() implies b.deep_view()[k] == a.deep_view().skip(1)[k]
        by {
        assert(b@[k] == a@[k + 1]);
    }
    assert(b.deep_view() =~= a.deep_view().skip(1));
}

/// The record a builder's fields yield: the fields with the computed
/// `length`.
pub open spec fn built_record(v: RecordV) -> RecordV {
    RecordV { length: record_tail_enc(v).len() as i32, ..v }
}

/// A record builder's fields can yield a well-formed record.
pub open spec fn buildable(v: RecordV) -> bool {
    record_sizes_ok(v) && record_tail_enc(v).len() <= MAX_RECORD_LEN
}

/// The records that a sequence of builder field sets yields.
pub open spec fn built_records(rs: Seq<RecordV>) -> Seq<RecordV> {
    rs.map_values(|v: RecordV| built_record(v))
}

impl BatchBuilder {
    /// Sets the base offset.
    pub fn base_offset(self, base_offset: i64) -> (r: Self)
        ensures
            r@ == (BatchBuilderV { base_offset, ..self@ }),
    {
        let mut b = self;
        b.base_offset = base_offset;
        b
    }

    /// Sets the partition leader epoch.
    pub fn partition_leader_epoch(self, partition_leader_epoch: i32) -> (r: Self)
        ensures
            r@ == (BatchBuilderV { partition_leader_epoch, ..self@ }),
    {
        let mut b = self;
        b.partition_leader_epoch = partition_leader_epoch;
        b
    }

    /// Sets the magic byte; the wire format this codec speaks is magic 2.
    pub fn magic(self, magic: i8) -> (r: Self)
        ensures
            r@ == (BatchBuilderV { magic, ..self@ }),
    {
        let mut b = self;
        b.magic = magic;
        b
    }

    /// Sets the attributes word.
    pub fn attributes(self, attributes: i16) -> (r: Self)
        ensures
            r@ == (BatchBuilderV { attributes, ..self@ }),
    {
        let mut b = self;
        b.attributes = attributes;
        b
    }

    /// Sets the last offset delta.
    pub fn last_offset_delta(self, last_offset_delta: i32) -> (r: Self)
        ensures
            r@ == (BatchBuilderV { last_offset_delta, ..self@ }),
    {
        let mut b = self;
        b.last_offset_delta = last_offset_delta;
        b
    }

    /// Sets the base timestamp.
    pub fn base_timestamp(self, base_timestamp: i64) -> (r: Self)
        ensures
            r@ == (BatchBuilderV { base_timestamp, ..self@ }),
    {
        let mut b = self;
        b.base_timestamp = base_timestamp;
        b
    }

    /// Sets the max timestamp.
    pub fn max_timestamp(self, max_timestamp: i64) -> (r: Self)
        ensures
            r@ == (BatchBuilderV { max_timestamp, ..self@ }),
    {
        let mut b = self;
        b.max_timestamp = max_timestamp;
        b
    }

    /// Sets the producer id.
    pub fn producer_id(self, producer_id: i64) -> (r: Self)
        ensures
            r@ == (BatchBuilderV { producer_id, ..self@ }),
    {
        let mut b = self;
        b.producer_id = producer_id;
        b
    }

    /// Sets the producer epoch.
    pub fn producer_epoch(self, producer_epoch: i16) -> (r: Self)
        ensures
            r@ == (BatchBuilderV { producer_epoch, ..self@ }),
    {
        let mut b = self;
        b.producer_epoch = producer_epoch;
        b
    }

    /// Sets the base sequence.
    pub fn base_sequence(self, base_sequence: i32) -> (r: Self)
        ensures
            r@ == (BatchBuilderV { base_sequence, ..self@ }),
    {
        let mut b = self;
        b.base_sequence = base_sequence;
        b
    }

    /// Appends one record builder.
    pub fn record(self, record: Builder) -> (r: Self)
        ensures
            r@ == (BatchBuilderV { records: self@.records.push(record@), ..self@ }),
    {
        let mut b = self;
        let ghost pre: Vec<Builder> = b.records;
        b.records.push(record);
        proof {
            assert(b.records.deep_view() =~= pre.deep_view().push(record@));
        }
        b
    }

    /// Builds every record, then the batch: each record's `length`, the
    /// `batch_length`, and the CRC over the encoded region are computed
    /// here. Fails when a record cannot fit its length prefix or the
    /// batch cannot fit `batch_length`.
    #[verifier::rlimit(100)]
    #[verifier::spinoff_prover]
    pub fn build(self) -> (r: Result<Batch, Error>)
        ensures
            r is Ok <==> (forall|i: int|
                0 <= i < self@.records.len() ==> buildable(#[trigger] self@.records[i]))
                && self@.records.len() <= MAX_RECORD_LEN && BATCH_LENGTH_OVERHEAD + records_cat(
                built_records(self@.records),
            ).len() <= MAX_RECORD_LEN,
            match r {
                Ok(b) => {
                    &&& b@ == (BatchV {
                        base_offset: self@.base_offset,
                        batch_length: (BATCH_LENGTH_OVERHEAD + records_cat(
                            built_records(self@.records),
                        ).len()) as i32,
                        partition_leader_epoch: self@.partition_leader_epoch,
                        magic: self@.magic,
                        crc: crc32c_of(crc_region_enc(b@)),
                        attributes: self@.attributes,
                        last_offset_delta: self@.last_offset_delta,
                        base_timestamp: self@.base_timestamp,
                        max_timestamp: self@.max_timestamp,
                        producer_id: self@.producer_id,
                        producer_epoch: self@.producer_epoch,
                        base_sequence: self@.base_sequence,
                        records: built_records(self@.records),
                    })
                    &&& records_wf(b@.records)
                    &&& (self@.magic == 2 && compression_none(self@.attributes) ==> batch_wf(
                        b@,
                    ))
                },
                Err(e) => e == Error::MalformedRecord,
            },
    {
        let ghost brs: Seq<RecordV> = self@.records;
        let ghost target: Seq<RecordV> = built_records(brs);
        let mut pending: Vec<Builder> = self.records;
        let mut built: Vec<Record> = Vec::new();
        let mut i: usize = 0;
        let n0: usize = pending.len();
        let ghost total: nat = pending@.len();
        proof {
            assert(built.deep_view() =~= target.take(0));
        }
        while pending.len() > 0
            invariant
                self@.records == brs,
                i + pending@.len() == total,
                total == n0,
                total == brs.len(),
                target == built_records(brs),
                pending.deep_view() == brs.skip(i as int),
                built.deep_view() == target.take(i as int),
                built@.len() == i,
                forall|k: int| 0 <= k < i ==> buildable(#[trigger] brs[k]),
                forall|k: int| 0 <= k < i ==> record_wf(#[trigger] target[k]),
            decreases pending@.len(),
        {
            let ghost pend_pre: Vec<Builder> = pending;
            let rb: Builder = pending.remove(0);
            proof {
                assert(rb == pend_pre@[0]);
                assert(rb@ == pend_pre.deep_view()[0]);
                assert(pend_pre.deep_view()[0] == brs.skip(i as int)[0]);
                assert(rb@ == brs[i as int]);
                lemma_builders_deep_view_remove(pend_pre, pending);
                assert(pending.deep_view() =~= brs.skip(i + 1));
            }
            let ghost rbv: RecordV = rb@;
            let res: Result<Record, Error> = rb.build();
            let rec: Record = match res {
                Ok(rec) => rec,
                Err(e) => {
                    proof {
                        assert(!(record_sizes_ok(rbv) && record_tail_enc(rbv).len()
                            <= MAX_RECORD_LEN));
                        assert(!buildable(brs[i as int]));
                        assert(!(forall|k: int|
                            0 <= k < self@.records.len() ==> buildable(
                                #[trigger] self@.records[k],
                            ))) by {
                            assert(!buildable(self@.records[i as int]));
                        }
                    }
                    return Err(Error::MalformedRecord);
                },
            };
            let ghost built_pre: Vec<Record> = built;
            built.push(rec);
            proof {
                assert(rec@ == built_record(rbv));
                assert(rec@ == built_record(brs[i as int]));
                assert(target[i as int] == built_record(brs[i as int]));
                assert(built.deep_view() =~= built_pre.deep_view().push(rec@));
                assert(built.deep_view() =~= target.take(i + 1));
            }
            i = i + 1;
        }
        proof {
            assert(built.deep_view() =~= target);
            assert(records_wf(target));
        }
        if built.len() > MAX_RECORD_LEN {
            return Err(Error::MalformedRecord);
        }
        let rs_size: u64 = record_sequence_size(&built);
        proof {
            lemma_i32_roundtrip(built@.len() as i32);
            assert(rs_size as nat == 4 + records_cat(target).len());
        }
        let batch_length_u64: u64 = (BATCH_LENGTH_OVERHEAD as u64 - 4) + rs_size;
        if batch_length_u64 > MAX_RECORD_LEN as u64 {
            return Err(Error::MalformedRecord);
        }
        let mut region: Vec<u8> = Vec::new();
        push_i16(&mut region, self.attributes);
        push_i32(&mut region, self.last_offset_delta);
        push_i64(&mut region, self.base_timestamp);
        push_i64(&mut region, self.max_timestamp);
        push_i64(&mut region, self.producer_id);
        push_i16(&mut region, self.producer_epoch);
        push_i32(&mut region, self.base_sequence);
        encode_record_sequence(&mut region, &built);
        let crc: u32 = crc32c(region.as_slice());
        let batch = Batch {
            base_offset: self.base_offset,
            batch_length: batch_length_u64 as i32,
            partition_leader_epoch: self.partition_leader_epoch,
            magic: self.magic,
            crc,
            attributes: self.attributes,
            last_offset_delta: self.last_offset_delta,
            base_timestamp: self.base_timestamp,
            max_timestamp: self.max_timestamp,
            producer_id: self.producer_id,
            producer_epoch: self.producer_epoch,
            base_sequence: self.base_sequence,
            records: built,
        };
        proof {
            assert(region@ =~= crc_region_enc(batch@));
        }
        Ok(batch)
    }
}


// ===== batch runs: the records field of a produce or fetch =====

/// The batch run filling a records field: batches one after the other to
/// the end of the bytes.
pub open spec fn batch_set_dec(s: Seq<u8>) -> Option<Seq<BatchV>>
    decreases s.len(),
{
    if s.len() == 0 {
        Some(Seq::empty())
    } else {
        match batch_dec(s) {
            None => None,
            Some(p) => if p.1 == 0 {
                None
            } else {
                match batch_set_dec(s.skip(p.1 as int)) {
                    None => None,
                    Some(t) => Some(seq![p.0] + t),
                }
            },
        }
    }
}

/// Reads the batches filling a records field, one after the other to the
/// end of the bytes.
#[verifier::rlimit(100)]
#[verifier::spinoff_prover]
pub fn decode_batches(s: &[u8]) -> (r: Result<Vec<Batch>, Error>)
    ensures
        r is Ok <==> batch_set_dec(s@) is Some,
        match r {
            Ok(bs) => batch_set_dec(s@) == Some(bs.deep_view()),
            Err(e) => {
                e == Error::IncompleteFrame || e == Error::MalformedInput || e
                    == Error::MalformedRecord || e == Error::UnsupportedCompression
            },
        },
{
    let len: usize = s.len();
    let mut out: Vec<Batch> = Vec::new();
    let mut pos: usize = 0;
    proof {
        assert(out.deep_view() =~= Seq::<BatchV>::empty());
        assert(s@.skip(0) =~= s@);
    }
    while pos < len
        invariant
            pos <= len,
            len == s@.len(),
            match batch_set_dec(s@.skip(pos as int)) {
                Some(t) => batch_set_dec(s@) == Some(out.deep_view() + t),
                None => batch_set_dec(s@) is None,
            },
        decreases len - pos,
    {
        let ghost ucur: Seq<u8> = s@.skip(pos as int);
        let ghost out_pre: Vec<Batch> = out;
        let (b, used) = match decode_batch(s, pos) {
            Ok(p) => p,
            Err(e) => {
                proof {
                    assert(batch_set_dec(ucur) is None);
                }
                return Err(e);
            },
        };
        proof {
            assert(used >= 61);
            assert(ucur.skip(used as int) =~= s@.skip(pos + used));
            match batch_set_dec(s@.skip(pos + used)) {
                Some(t) => {
                    assert(batch_set_dec(ucur) == Some(seq![b@] + t));
                    assert(out.deep_view() + (seq![b@] + t) =~= (out.deep_view() + seq![b@])
                        + t);
                    assert(out.deep_view() + seq![b@] =~= out.deep_view().push(b@));
                },
                None => {
                    assert(batch_set_dec(ucur) is None);
                },
            }
        }
        out.push(b);
        proof {
            assert(out.deep_view() =~= out_pre.deep_view().push(out@[out@.len() - 1]@));
        }
        pos = pos + used;
    }
    proof {
        assert(s@.skip(len as int).len() == 0);
        assert(out.deep_view() + Seq::<BatchV>::empty() =~= out.deep_view());
    }
    Ok(out)
}

/// Recomputing CRC-32C over the encoded byte range from the attributes
/// word to the end equals the batch's `crc` field as it sits on the wire.
pub proof fn lemma_batch_crc(b: BatchV)
    requires
        batch_wf(b),
    ensures
        crc32c_of(batch_enc(b).skip(21)) == be_dec(batch_enc(b).subrange(17, 21)),
{
    lemma_batch_enc_layout(b, Seq::empty());
    let s = batch_enc(b) + Seq::<u8>::empty();
    assert(s =~= batch_enc(b));
    assert(batch_enc(b).skip(21) =~= batch_enc(b).subrange(
        21,
        61 + records_cat(b.records).len() as int,
    ));
    lemma_u32_roundtrip(b.crc);
}

/// The encoded batch spans the 8-byte base offset, the 4-byte length
/// field, and `batch_length` further bytes.
pub proof fn lemma_batch_length_identity(b: BatchV)
    requires
        batch_wf(b),
    ensures
        batch_enc(b).len() == 8 + 4 + b.batch_length,
{
    lemma_batch_enc_layout(b, Seq::empty());
}

} // verus!
