use tansu_broker::body::{request_header_flexible, response_header_flexible};
use tansu_broker::frame::{
    decode_request_frame, encode_request_header, encode_response_frame, encode_str_field,
    RequestHeader,
};
use tansu_broker::varint::{decode_varint32, decode_varint64, encode_varint32, encode_varint64};

#[test]
fn varint32_boundary_round_trips() {
    for n in [i32::MIN, i32::MAX, 0, -1, 1] {
        let mut out: Vec<u8> = Vec::new();
        encode_varint32(&mut out, n);
        let (decoded, used) = decode_varint32(&out, 0).unwrap();
        assert_eq!(n, decoded);
        assert_eq!(out.len(), used);
    }
}

#[test]
fn varint64_boundary_round_trips() {
    for n in [i64::MIN, i64::MAX, 0, -1, 1, 1_707_058_170_165] {
        let mut out: Vec<u8> = Vec::new();
        encode_varint64(&mut out, n);
        let (decoded, used) = decode_varint64(&out, 0).unwrap();
        assert_eq!(n, decoded);
        assert_eq!(out.len(), used);
    }
}

#[test]
fn varint_known_bytes() {
    let mut out: Vec<u8> = Vec::new();
    encode_varint32(&mut out, 9);
    assert_eq!(vec![18], out);

    let mut out: Vec<u8> = Vec::new();
    encode_varint32(&mut out, -1);
    assert_eq!(vec![1], out);

    let mut out: Vec<u8> = Vec::new();
    encode_varint32(&mut out, 3);
    assert_eq!(vec![6], out);
}

#[test]
fn response_frame_echoes_correlation_id() {
    for correlation_id in [0, 1, -1, 0x1234_5678, i32::MIN, i32::MAX] {
        for flexible in [false, true] {
            let body = vec![1u8, 2, 3];
            let frame = encode_response_frame(correlation_id, flexible, &body);
            let echoed = i32::from_be_bytes([frame[4], frame[5], frame[6], frame[7]]);
            assert_eq!(correlation_id, echoed);
        }
    }
}

#[test]
fn response_frame_layout() {
    let frame = encode_response_frame(7, false, &[0xAA, 0xBB]);
    // size counts the correlation id and the body
    assert_eq!(vec![0, 0, 0, 6, 0, 0, 0, 7, 0xAA, 0xBB], frame);

    let flexible = encode_response_frame(7, true, &[0xAA]);
    // an empty tagged-field section sits between the header and the body
    assert_eq!(vec![0, 0, 0, 6, 0, 0, 0, 7, 0, 0xAA], flexible);
}

#[test]
fn string_field_forms_follow_flexibility() {
    let value = Some(b"ab".to_vec());

    let mut legacy: Vec<u8> = Vec::new();
    encode_str_field(&mut legacy, &value, false);
    assert_eq!(vec![0, 2, b'a', b'b'], legacy);

    let mut compact: Vec<u8> = Vec::new();
    encode_str_field(&mut compact, &value, true);
    assert_eq!(vec![3, b'a', b'b'], compact);

    let mut legacy_null: Vec<u8> = Vec::new();
    encode_str_field(&mut legacy_null, &None, false);
    assert_eq!(vec![255, 255], legacy_null);

    let mut compact_null: Vec<u8> = Vec::new();
    encode_str_field(&mut compact_null, &None, true);
    assert_eq!(vec![0], compact_null);
}

#[test]
fn flexible_header_appends_tagged_section() {
    let header = RequestHeader {
        api_key: 18,
        api_version: 3,
        correlation_id: 5,
        client_id: Some(b"cli".to_vec()),
    };

    let mut legacy: Vec<u8> = Vec::new();
    encode_request_header(&mut legacy, &header, false);

    let mut flexible: Vec<u8> = Vec::new();
    encode_request_header(&mut flexible, &header, true);

    // the flexible form is the legacy form plus an empty tagged section
    assert_eq!(legacy.len() + 1, flexible.len());
    assert_eq!(&legacy[..], &flexible[..legacy.len()]);
    assert_eq!(0, flexible[flexible.len() - 1]);
}

#[test]
fn unknown_tagged_fields_are_tolerated() {
    // header core: api_key 18, api_version 3, correlation_id 9, client_id null
    let core: Vec<u8> = vec![0, 18, 0, 3, 0, 0, 0, 9, 255, 255];
    let body: Vec<u8> = vec![0xDE, 0xAD];

    // no tagged fields
    let mut plain: Vec<u8> = Vec::new();
    plain.extend_from_slice(&core);
    plain.push(0);
    plain.extend_from_slice(&body);
    let mut plain_frame: Vec<u8> = vec![0, 0, 0, plain.len() as u8];
    plain_frame.extend_from_slice(&plain);

    // one unknown tagged field: tag 7, three payload bytes
    let mut tagged: Vec<u8> = Vec::new();
    tagged.extend_from_slice(&core);
    tagged.push(1);
    tagged.push(7);
    tagged.push(3);
    tagged.extend_from_slice(&[1, 2, 3]);
    tagged.extend_from_slice(&body);
    let mut tagged_frame: Vec<u8> = vec![0, 0, 0, tagged.len() as u8];
    tagged_frame.extend_from_slice(&tagged);

    let (h1, t1, b1, _) = decode_request_frame(&plain_frame, true).unwrap();
    let (h2, t2, b2, _) = decode_request_frame(&tagged_frame, true).unwrap();

    assert_eq!(h1, h2);
    assert_eq!(b1, b2);
    assert_eq!(0, t1.len());
    assert_eq!(1, t2.len());
    assert_eq!(7, t2[0].tag);
    assert_eq!(vec![1, 2, 3], t2[0].data);
}

#[test]
fn request_frame_round_trip() {
    let header = RequestHeader {
        api_key: 12,
        api_version: 4,
        correlation_id: 42,
        client_id: Some(b"consumer".to_vec()),
    };
    let flexible = request_header_flexible(header.api_key, header.api_version);
    assert!(flexible);

    let mut bytes: Vec<u8> = Vec::new();
    encode_request_header(&mut bytes, &header, flexible);
    bytes.extend_from_slice(&[1, 2, 3, 4]);
    let mut frame: Vec<u8> = (bytes.len() as i32).to_be_bytes().to_vec();
    frame.extend_from_slice(&bytes);

    let (decoded, tags, body, used) = decode_request_frame(&frame, flexible).unwrap();
    assert_eq!(header, decoded);
    assert_eq!(0, tags.len());
    assert_eq!(vec![1, 2, 3, 4], body);
    assert_eq!(frame.len(), used);
}

#[test]
fn flexible_boundaries() {
    assert!(!request_header_flexible(0, 8));
    assert!(request_header_flexible(0, 9));
    assert!(request_header_flexible(18, 3));
    assert!(!request_header_flexible(18, 2));
    // ApiVersions responses stay legacy at every version
    assert!(!response_header_flexible(18, 3));
    assert!(response_header_flexible(12, 4));
}
