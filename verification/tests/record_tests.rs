use crc::Crc;
use crc::CRC_32_ISCSI;
use tansu_broker::batch::{decode_batch, decode_batches, Batch};
use tansu_broker::record::{
    decode_record, encode_record_sequence, octets_size, record_sequence_size, Record,
};

#[test]
fn bytes_size() {
    assert_eq!(4, octets_size(&Some(vec![100, 101, 102])));
}

#[test]
fn record_size() {
    assert_eq!(
        9,
        Record::builder()
            .value(Some(vec![100, 101, 102]))
            .size_in_bytes()
            .unwrap()
    );
}

#[test]
fn serialize_record_builder() {
    let rb = Record::builder().value(Some(vec![100, 101, 102]));
    let record = rb.build().unwrap();

    let mut out: Vec<u8> = Vec::new();
    record.encode(&mut out);

    assert_eq!(vec![18, 0, 0, 0, 1, 6, 100, 101, 102, 0], out);
}

#[test]
fn try_from_record_builder() {
    let record = Record::builder()
        .value(Some(vec![100, 101, 102]))
        .build()
        .unwrap();
    assert_eq!(9, record.length);
}

#[test]
fn sequence_of_record_builder() {
    let rb = Record::builder().value(Some(vec![100, 101, 102]));
    let records = vec![rb.build().unwrap()];
    assert_eq!(14, record_sequence_size(&records));

    let mut out: Vec<u8> = Vec::new();
    encode_record_sequence(&mut out, &records);

    assert_eq!(vec![0, 0, 0, 1, 18, 0, 0, 0, 1, 6, 100, 101, 102, 0], out);
}

#[test]
fn batch() {
    let decoded = Batch::builder()
        .base_offset(0)
        .partition_leader_epoch(-1)
        .magic(2)
        .attributes(0)
        .last_offset_delta(0)
        .base_timestamp(1_707_058_170_165)
        .max_timestamp(1_707_058_170_165)
        .producer_id(1)
        .producer_epoch(0)
        .base_sequence(1)
        .record(Record::builder().value(Some(vec![100, 101, 102])))
        .build()
        .unwrap();

    assert_eq!(decoded.batch_length, 59);
    assert_eq!(decoded.crc, 1_126_819_645);
}

#[test]
fn crc_check() {
    let b = [
        0, 0, 0, 0, 0, 0, 0, 0, 1, 141, 116, 152, 137, 53, 0, 0, 1, 141, 116, 152, 137, 53, 0,
        0, 0, 0, 0, 0, 0, 1, 0, 0, 0, 0, 0, 1, 0, 0, 0, 1, 18, 0, 0, 0, 1, 6, 100, 101, 102, 0,
    ];

    let crc = Crc::<u32>::new(&CRC_32_ISCSI);
    let mut digester = crc.digest();
    digester.update(&b);
    assert_eq!(1_126_819_645, digester.finalize());
}

#[test]
fn batch_decode() {
    let encoded = vec![
        0, 0, 0, 0, 0, 0, 0, 0, 0, 0, 0, 59, 255, 255, 255, 255, 2, 67, 41, 231, 61, 0, 0, 0,
        0, 0, 0, 0, 0, 1, 141, 116, 152, 137, 53, 0, 0, 1, 141, 116, 152, 137, 53, 0, 0, 0, 0,
        0, 0, 0, 1, 0, 0, 0, 0, 0, 1, 0, 0, 0, 1, 18, 0, 0, 0, 1, 6, 100, 101, 102, 0,
    ];

    let decoded = Batch::builder()
        .base_offset(0)
        .partition_leader_epoch(-1)
        .magic(2)
        .attributes(0)
        .last_offset_delta(0)
        .base_timestamp(1_707_058_170_165)
        .max_timestamp(1_707_058_170_165)
        .producer_id(1)
        .producer_epoch(0)
        .base_sequence(1)
        .record(Record::builder().value(Some(vec![100, 101, 102])))
        .build()
        .unwrap();

    let (actual, used) = decode_batch(&encoded, 0).unwrap();

    assert_eq!(decoded, actual);
    assert_eq!(encoded.len(), used);
}

#[test]
fn batch_encode() {
    let encoded = vec![
        0, 0, 0, 0, 0, 0, 0, 0, 0, 0, 0, 59, 255, 255, 255, 255, 2, 67, 41, 231, 61, 0, 0, 0,
        0, 0, 0, 0, 0, 1, 141, 116, 152, 137, 53, 0, 0, 1, 141, 116, 152, 137, 53, 0, 0, 0, 0,
        0, 0, 0, 1, 0, 0, 0, 0, 0, 1, 0, 0, 0, 1, 18, 0, 0, 0, 1, 6, 100, 101, 102, 0,
    ];

    let decoded = Batch::builder()
        .base_offset(0)
        .partition_leader_epoch(-1)
        .magic(2)
        .attributes(0)
        .last_offset_delta(0)
        .base_timestamp(1_707_058_170_165)
        .max_timestamp(1_707_058_170_165)
        .producer_id(1)
        .producer_epoch(0)
        .base_sequence(1)
        .record(Record::builder().value(Some(vec![100, 101, 102])))
        .build()
        .unwrap();

    let mut out: Vec<u8> = Vec::new();
    decoded.encode(&mut out);
    assert_eq!(encoded, out);

    let (actual, _) = decode_batch(&encoded, 0).unwrap();
    assert_eq!(decoded, actual);
}

#[test]
fn build_batch_records() {
    let keys: Vec<String> = (0..=6).map(|i| format!("k{i}")).collect();
    let values: Vec<String> = (0..=11).map(|i| format!("v{i}")).collect();

    let mut builder = Batch::builder();
    let indexes = [
        (1, 1),
        (2, 2),
        (1, 3),
        (1, 4),
        (3, 5),
        (2, 6),
        (4, 7),
        (5, 8),
        (5, 9),
        (2, 10),
        (6, 11),
    ];

    for (offset_delta, (key_index, value_index)) in indexes.into_iter().enumerate() {
        builder = builder.record(
            Record::builder()
                .offset_delta(i32::try_from(offset_delta).unwrap())
                .key(Some(keys[key_index].as_bytes().to_vec()))
                .value(Some(values[value_index].as_bytes().to_vec())),
        );
    }

    let batch = builder.build().unwrap();
    assert_eq!(indexes.len(), batch.records.len());
}

#[test]
fn record_round_trip_null_and_empty_payloads() {
    for (key, value) in [
        (None, None),
        (None, Some(vec![])),
        (Some(vec![]), None),
        (Some(vec![]), Some(vec![])),
        (Some(vec![1u8, 2, 3]), None),
        (None, Some(vec![9u8])),
    ] {
        let record = Record::builder()
            .key(key.clone())
            .value(value.clone())
            .build()
            .unwrap();

        let mut out: Vec<u8> = Vec::new();
        record.encode(&mut out);

        let (decoded, used) = decode_record(&out, 0).unwrap();
        assert_eq!(record, decoded);
        assert_eq!(out.len(), used);
        assert_eq!(key, decoded.key);
        assert_eq!(value, decoded.value);
    }
}

#[test]
fn record_tombstone() {
    let record = Record::builder()
        .key(Some(vec![1, 2]))
        .build()
        .unwrap();
    assert!(record.is_tombstone());
    assert_eq!(Some(vec![1, 2]), record.key());
    assert_eq!(None, record.value());

    let with_value = Record::builder()
        .key(Some(vec![1, 2]))
        .value(Some(vec![3]))
        .build()
        .unwrap();
    assert!(!with_value.is_tombstone());
}

#[test]
fn empty_batch_round_trip() {
    let batch = Batch::builder()
        .base_offset(7)
        .partition_leader_epoch(-1)
        .magic(2)
        .base_timestamp(1)
        .max_timestamp(2)
        .producer_id(-1)
        .base_sequence(-1)
        .build()
        .unwrap();
    assert_eq!(0, batch.records.len());

    let mut out: Vec<u8> = Vec::new();
    batch.encode(&mut out);
    assert_eq!(12 + batch.batch_length as usize, out.len());

    let (decoded, used) = decode_batch(&out, 0).unwrap();
    assert_eq!(batch, decoded);
    assert_eq!(out.len(), used);
}

#[test]
fn batch_crc_rejected_when_corrupted() {
    let batch = Batch::builder()
        .magic(2)
        .record(Record::builder().value(Some(vec![100, 101, 102])))
        .build()
        .unwrap();

    let mut out: Vec<u8> = Vec::new();
    batch.encode(&mut out);

    // flip one bit inside the CRC-protected region
    let last = out.len() - 1;
    out[last] ^= 0x01;
    assert!(decode_batch(&out, 0).is_err());
}

#[test]
fn batch_compression_bits_rejected() {
    let batch = Batch::builder()
        .magic(2)
        .attributes(1)
        .record(Record::builder().value(Some(vec![100, 101, 102])))
        .build()
        .unwrap();

    let mut out: Vec<u8> = Vec::new();
    batch.encode(&mut out);
    assert_eq!(
        Err(tansu_broker::error::Error::UnsupportedCompression),
        decode_batch(&out, 0)
    );
}

#[test]
fn record_decode_truncated_is_incomplete() {
    let record = Record::builder().value(Some(vec![100, 101, 102])).build().unwrap();
    let mut out: Vec<u8> = Vec::new();
    record.encode(&mut out);
    out.truncate(out.len() - 1);
    assert_eq!(
        Err(tansu_broker::error::Error::IncompleteFrame),
        decode_record(&out, 0)
    );
}

#[test]
fn record_length_mismatch_is_malformed() {
    let record = Record::builder().value(Some(vec![100, 101, 102])).build().unwrap();
    let mut out: Vec<u8> = Vec::new();
    record.encode(&mut out);
    // the length varint announces more tail bytes than follow the fields
    out[0] = 22;
    out.push(0);
    out.push(0);
    assert_eq!(
        Err(tansu_broker::error::Error::MalformedRecord),
        decode_record(&out, 0)
    );
}

#[test]
fn builder_from_record_rebuilds_the_same_record() {
    let record = Record::builder()
        .timestamp_delta(-3)
        .offset_delta(4)
        .key(Some(vec![1]))
        .value(Some(vec![2, 3]))
        .build()
        .unwrap();
    let rebuilt = tansu_broker::record::Builder::from_record(record.clone())
        .build()
        .unwrap();
    assert_eq!(record, rebuilt);
}

#[test]
fn crc_checked_before_compression_bits() {
    // a batch whose compression bits are set and whose CRC is wrong is
    // rejected for the CRC, which is verified first
    let batch = Batch::builder()
        .magic(2)
        .attributes(1)
        .record(Record::builder().value(Some(vec![100, 101, 102])))
        .build()
        .unwrap();

    let mut out: Vec<u8> = Vec::new();
    batch.encode(&mut out);
    let last = out.len() - 1;
    out[last] ^= 0x01;
    assert_eq!(
        Err(tansu_broker::error::Error::MalformedInput),
        decode_batch(&out, 0)
    );
}

#[test]
fn records_field_batch_run() {
    let one = vec![
        0, 0, 0, 0, 0, 0, 0, 0, 0, 0, 0, 59, 255, 255, 255, 255, 2, 67, 41, 231, 61, 0, 0, 0,
        0, 0, 0, 0, 0, 1, 141, 116, 152, 137, 53, 0, 0, 1, 141, 116, 152, 137, 53, 0, 0, 0, 0,
        0, 0, 0, 1, 0, 0, 0, 0, 0, 1, 0, 0, 0, 1, 18, 0, 0, 0, 1, 6, 100, 101, 102, 0,
    ];

    let expected = Batch::builder()
        .base_offset(0)
        .partition_leader_epoch(-1)
        .magic(2)
        .attributes(0)
        .last_offset_delta(0)
        .base_timestamp(1_707_058_170_165)
        .max_timestamp(1_707_058_170_165)
        .producer_id(1)
        .producer_epoch(0)
        .base_sequence(1)
        .record(Record::builder().value(Some(vec![100, 101, 102])))
        .build()
        .unwrap();

    let batches = decode_batches(&one).unwrap();
    assert_eq!(vec![expected.clone()], batches);
    assert_eq!(1, batches[0].records.len());
    assert_eq!(Some(vec![100, 101, 102]), batches[0].records[0].value);

    let mut two = one.clone();
    two.extend_from_slice(&one);
    let batches = decode_batches(&two).unwrap();
    assert_eq!(2, batches.len());
    assert_eq!(expected, batches[1]);

    assert_eq!(Vec::<Batch>::new(), decode_batches(&[]).unwrap());

    let mut truncated = one.clone();
    truncated.pop();
    assert!(decode_batches(&truncated).is_err());
}
