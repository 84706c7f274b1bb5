//! Per-API body schemas in their legacy (pre-flexible) forms: for each
//! served API and version window, a request decoder and a response
//! encoder over the primitives of `frame`. The registry in `body` routes
//! through these; `body_schema_known` names the windows served here.

use vstd::prelude::*;

verus! {

use crate::body::Body;
use crate::body::DeletableGroupResult;
use crate::body::DeletableTopicResult;
use crate::body::ListedGroup;
use crate::body::ListOffsetsPartition;
use crate::body::ListOffsetsPartitionResponse;
use crate::body::ListOffsetsTopic;
use crate::body::ListOffsetsTopicResponse;
use crate::body::SyncGroupAssignment;
use crate::body::TxnPartitionResult;
use crate::body::TxnTopic;
use crate::body::TxnTopicResult;
use crate::error::Error;
use crate::frame::decode_nstr;
use crate::frame::decode_string;
use crate::frame::nstr_dec;
use crate::frame::str16_enc;
use crate::frame::utf8_string;
use crate::wire::be_dec;
use crate::wire::i16_enc;
use crate::wire::i32_enc;
use crate::wire::i64_enc;
use crate::wire::i16_of_u16;
use crate::wire::i32_of_u32;
use crate::wire::i64_of_u64;
use crate::wire::push_i16;
use crate::wire::push_i32;
use crate::wire::push_i64;
use crate::wire::read_i16;
use crate::wire::read_i32;
use crate::wire::read_i64;
use vstd::utf8::encode_utf8;
use vstd::utf8::valid_utf8;

/// An optional byte field holds a string when present bytes are UTF-8.
pub open spec fn sval(b: Seq<u8>) -> bool {
    valid_utf8(b)
}

// ===== Heartbeat, versions 0 and 1 =====

/// The Heartbeat request body: group id, generation id, member id,
/// spanning the whole body.
pub open spec fn heartbeat_request_dec(s: Seq<u8>) -> Option<(Seq<u8>, i32, Seq<u8>)> {
    match nstr_dec(s) {
        None => None,
        Some(g) => match g.0 {
            None => None,
            Some(gb) => {
                let r1 = s.skip(g.1 as int);
                if r1.len() < 4 {
                    None
                } else {
                    let gen = i32_of_u32(be_dec(r1.subrange(0, 4))) as i32;
                    let r2 = r1.skip(4);
                    match nstr_dec(r2) {
                        None => None,
                        Some(m) => match m.0 {
                            None => None,
                            Some(mb) => if g.1 + 4 + m.1 == s.len() {
                                Some((gb, gen, mb))
                            } else {
                                None
                            },
                        },
                    }
                }
            },
        },
    }
}

/// Reads a Heartbeat request body.
#[verifier::rlimit(100)]
#[verifier::spinoff_prover]
pub fn decode_heartbeat_request(body: &[u8]) -> (r: Result<Body, Error>)
    ensures
        r is Ok <==> (match heartbeat_request_dec(body@) {
            Some(t) => sval(t.0) && sval(t.2),
            None => false,
        }),
        match r {
            Ok(b) => {
                &&& heartbeat_request_dec(body@) matches Some(t)
                &&& b matches Body::HeartbeatRequest {
                    group_id,
                    generation_id,
                    member_id,
                    group_instance_id: None,
                } && encode_utf8(group_id@) == t.0 && generation_id == t.1 && encode_utf8(
                    member_id@,
                ) == t.2
            },
            Err(e) => e == Error::IncompleteFrame || e == Error::MalformedInput,
        },
{
    let len: usize = body.len();
    let ghost t: Seq<u8> = body@;
    proof {
        assert(t.skip(0) =~= t);
    }
    let (group_id, c1) = match decode_string(body, 0) {
        Ok(p) => p,
        Err(e) => {
            return Err(e);
        },
    };
    if len - c1 < 4 {
        return Err(Error::IncompleteFrame);
    }
    proof {
        assert(t.skip(c1 as int).subrange(0, 4) =~= body@.subrange(c1 as int, c1 + 4));
    }
    let generation_id: i32 = read_i32(body, c1);
    proof {
        assert(t.skip(c1 as int).skip(4) =~= body@.skip(c1 + 4));
    }
    let (member_id, c2) = match decode_string(body, c1 + 4) {
        Ok(p) => p,
        Err(e) => {
            return Err(e);
        },
    };
    if c1 + 4 + c2 != len {
        return Err(Error::MalformedInput);
    }
    Ok(
        Body::HeartbeatRequest {
            group_id,
            generation_id,
            member_id,
            group_instance_id: None,
        },
    )
}

/// The Heartbeat response body: the throttle time from version 1, then
/// the error code.
pub open spec fn heartbeat_response_enc(
    throttle_time_ms: i32,
    error_code: i16,
    api_version: i16,
) -> Seq<u8> {
    (if api_version >= 1 {
        i32_enc(throttle_time_ms)
    } else {
        Seq::empty()
    }) + i16_enc(error_code)
}

/// Appends a Heartbeat response body.
pub fn encode_heartbeat_response(
    out: &mut Vec<u8>,
    throttle_time_ms: i32,
    error_code: i16,
    api_version: i16,
)
    ensures
        final(out)@ == old(out)@ + heartbeat_response_enc(
            throttle_time_ms,
            error_code,
            api_version,
        ),
{
    if api_version >= 1 {
        push_i32(out, throttle_time_ms);
    }
    push_i16(out, error_code);
    proof {
        assert(final(out)@ =~= old(out)@ + heartbeat_response_enc(
            throttle_time_ms,
            error_code,
            api_version,
        ));
    }
}

// ===== LeaveGroup, versions 0 and 1 =====

/// The LeaveGroup request body: group id and member id, spanning the
/// whole body.
pub open spec fn leave_group_request_dec(s: Seq<u8>) -> Option<(Seq<u8>, Seq<u8>)> {
    match nstr_dec(s) {
        None => None,
        Some(g) => match g.0 {
            None => None,
            Some(gb) => match nstr_dec(s.skip(g.1 as int)) {
                None => None,
                Some(m) => match m.0 {
                    None => None,
                    Some(mb) => if g.1 + m.1 == s.len() {
                        Some((gb, mb))
                    } else {
                        None
                    },
                },
            },
        },
    }
}

/// Reads a LeaveGroup request body.
#[verifier::rlimit(100)]
#[verifier::spinoff_prover]
pub fn decode_leave_group_request(body: &[u8]) -> (r: Result<Body, Error>)
    ensures
        r is Ok <==> (match leave_group_request_dec(body@) {
            Some(t) => sval(t.0) && sval(t.1),
            None => false,
        }),
        match r {
            Ok(b) => {
                &&& leave_group_request_dec(body@) matches Some(t)
                &&& b matches Body::LeaveGroupRequest { group_id, member_id, members: None }
                    && encode_utf8(group_id@) == t.0 && (member_id matches Some(m)
                    && encode_utf8(m@) == t.1)
            },
            Err(e) => e == Error::IncompleteFrame || e == Error::MalformedInput,
        },
{
    let len: usize = body.len();
    let ghost t: Seq<u8> = body@;
    proof {
        assert(t.skip(0) =~= t);
    }
    let (group_id, c1) = match decode_string(body, 0) {
        Ok(p) => p,
        Err(e) => {
            return Err(e);
        },
    };
    proof {
        assert(t.skip(c1 as int) =~= body@.skip(c1 as int));
    }
    let (member_id, c2) = match decode_string(body, c1) {
        Ok(p) => p,
        Err(e) => {
            return Err(e);
        },
    };
    if c1 + c2 != len {
        return Err(Error::MalformedInput);
    }
    Ok(Body::LeaveGroupRequest { group_id, member_id: Some(member_id), members: None })
}

/// The LeaveGroup response body: the throttle time from version 1, then
/// the error code.
pub open spec fn leave_group_response_enc(
    throttle_time_ms: i32,
    error_code: i16,
    api_version: i16,
) -> Seq<u8> {
    (if api_version >= 1 {
        i32_enc(throttle_time_ms)
    } else {
        Seq::empty()
    }) + i16_enc(error_code)
}

/// Appends a LeaveGroup response body.
pub fn encode_leave_group_response(
    out: &mut Vec<u8>,
    throttle_time_ms: i32,
    error_code: i16,
    api_version: i16,
)
    ensures
        final(out)@ == old(out)@ + leave_group_response_enc(
            throttle_time_ms,
            error_code,
            api_version,
        ),
{
    if api_version >= 1 {
        push_i32(out, throttle_time_ms);
    }
    push_i16(out, error_code);
    proof {
        assert(final(out)@ =~= old(out)@ + leave_group_response_enc(
            throttle_time_ms,
            error_code,
            api_version,
        ));
    }
}

// ===== EndTxn and AddOffsetsToTxn, versions 0 and 1 =====

/// The EndTxn request body: transactional id, producer id and epoch, and
/// the commit flag, spanning the whole body.
pub open spec fn end_txn_request_dec(s: Seq<u8>) -> Option<(Seq<u8>, i64, i16, bool)> {
    match nstr_dec(s) {
        None => None,
        Some(tx) => match tx.0 {
            None => None,
            Some(tb) => {
                let r1 = s.skip(tx.1 as int);
                if r1.len() < 11 {
                    None
                } else {
                    let pid = i64_of_u64(be_dec(r1.subrange(0, 8))) as i64;
                    let epoch = i16_of_u16(be_dec(r1.subrange(8, 10))) as i16;
                    let flag = r1[10];
                    if !(flag == 0 || flag == 1) {
                        None
                    } else if tx.1 + 11 == s.len() {
                        Some((tb, pid, epoch, flag == 1))
                    } else {
                        None
                    }
                }
            },
        },
    }
}

/// Reads an EndTxn request body.
#[verifier::rlimit(100)]
#[verifier::spinoff_prover]
pub fn decode_end_txn_request(body: &[u8]) -> (r: Result<Body, Error>)
    ensures
        r is Ok <==> (match end_txn_request_dec(body@) {
            Some(t) => sval(t.0),
            None => false,
        }),
        match r {
            Ok(b) => {
                &&& end_txn_request_dec(body@) matches Some(t)
                &&& b matches Body::EndTxnRequest {
                    transactional_id,
                    producer_id,
                    producer_epoch,
                    committed,
                } && encode_utf8(transactional_id@) == t.0 && producer_id == t.1
                    && producer_epoch == t.2 && committed == t.3
            },
            Err(e) => e == Error::IncompleteFrame || e == Error::MalformedInput,
        },
{
    let len: usize = body.len();
    let ghost t: Seq<u8> = body@;
    proof {
        assert(t.skip(0) =~= t);
    }
    let (transactional_id, c1) = match decode_string(body, 0) {
        Ok(p) => p,
        Err(e) => {
            return Err(e);
        },
    };
    if len - c1 < 11 {
        return Err(Error::IncompleteFrame);
    }
    proof {
        assert(t.skip(c1 as int).subrange(0, 8) =~= body@.subrange(c1 as int, c1 + 8));
        assert(t.skip(c1 as int).subrange(8, 10) =~= body@.subrange(c1 + 8, c1 + 10));
        assert(t.skip(c1 as int)[10] == body@[c1 + 10]);
    }
    let producer_id: i64 = read_i64(body, c1);
    let producer_epoch: i16 = read_i16(body, c1 + 8);
    let flag: u8 = body[c1 + 10];
    if !(flag == 0 || flag == 1) {
        return Err(Error::MalformedInput);
    }
    if c1 + 11 != len {
        return Err(Error::MalformedInput);
    }
    Ok(
        Body::EndTxnRequest {
            transactional_id,
            producer_id,
            producer_epoch,
            committed: flag == 1,
        },
    )
}

/// The AddOffsetsToTxn request body: transactional id, producer id and
/// epoch, and the group id, spanning the whole body.
pub open spec fn add_offsets_request_dec(s: Seq<u8>) -> Option<(Seq<u8>, i64, i16, Seq<u8>)> {
    match nstr_dec(s) {
        None => None,
        Some(tx) => match tx.0 {
            None => None,
            Some(tb) => {
                let r1 = s.skip(tx.1 as int);
                if r1.len() < 10 {
                    None
                } else {
                    let pid = i64_of_u64(be_dec(r1.subrange(0, 8))) as i64;
                    let epoch = i16_of_u16(be_dec(r1.subrange(8, 10))) as i16;
                    match nstr_dec(r1.skip(10)) {
                        None => None,
                        Some(g) => match g.0 {
                            None => None,
                            Some(gb) => if tx.1 + 10 + g.1 == s.len() {
                                Some((tb, pid, epoch, gb))
                            } else {
                                None
                            },
                        },
                    }
                }
            },
        },
    }
}

/// Reads an AddOffsetsToTxn request body.
#[verifier::rlimit(100)]
#[verifier::spinoff_prover]
pub fn decode_add_offsets_request(body: &[u8]) -> (r: Result<Body, Error>)
    ensures
        r is Ok <==> (match add_offsets_request_dec(body@) {
            Some(t) => sval(t.0) && sval(t.3),
            None => false,
        }),
        match r {
            Ok(b) => {
                &&& add_offsets_request_dec(body@) matches Some(t)
                &&& b matches Body::AddOffsetsToTxnRequest {
                    transactional_id,
                    producer_id,
                    producer_epoch,
                    group_id,
                } && encode_utf8(transactional_id@) == t.0 && producer_id == t.1
                    && producer_epoch == t.2 && encode_utf8(group_id@) == t.3
            },
            Err(e) => e == Error::IncompleteFrame || e == Error::MalformedInput,
        },
{
    let len: usize = body.len();
    let ghost t: Seq<u8> = body@;
    proof {
        assert(t.skip(0) =~= t);
    }
    let (transactional_id, c1) = match decode_string(body, 0) {
        Ok(p) => p,
        Err(e) => {
            return Err(e);
        },
    };
    if len - c1 < 10 {
        return Err(Error::IncompleteFrame);
    }
    proof {
        assert(t.skip(c1 as int).subrange(0, 8) =~= body@.subrange(c1 as int, c1 + 8));
        assert(t.skip(c1 as int).subrange(8, 10) =~= body@.subrange(c1 + 8, c1 + 10));
    }
    let producer_id: i64 = read_i64(body, c1);
    let producer_epoch: i16 = read_i16(body, c1 + 8);
    proof {
        assert(t.skip(c1 as int).skip(10) =~= body@.skip(c1 + 10));
    }
    let (group_id, c2) = match decode_string(body, c1 + 10) {
        Ok(p) => p,
        Err(e) => {
            return Err(e);
        },
    };
    if c1 + 10 + c2 != len {
        return Err(Error::MalformedInput);
    }
    Ok(
        Body::AddOffsetsToTxnRequest {
            transactional_id,
            producer_id,
            producer_epoch,
            group_id,
        },
    )
}

/// The transactional-result response body EndTxn and AddOffsetsToTxn
/// share: the throttle time, then the error code.
pub open spec fn txn_result_response_enc(throttle_time_ms: i32, error_code: i16) -> Seq<u8> {
    i32_enc(throttle_time_ms) + i16_enc(error_code)
}

/// Appends a throttle-and-error response body.
pub fn encode_txn_result_response(out: &mut Vec<u8>, throttle_time_ms: i32, error_code: i16)
    ensures
        final(out)@ == old(out)@ + txn_result_response_enc(throttle_time_ms, error_code),
{
    push_i32(out, throttle_time_ms);
    push_i16(out, error_code);
    proof {
        assert(final(out)@ =~= old(out)@ + txn_result_response_enc(
            throttle_time_ms,
            error_code,
        ));
    }
}

// ===== InitProducerId, versions 0 and 1 =====

/// The InitProducerId request body: the nullable transactional id and the
/// transaction timeout, spanning the whole body.
pub open spec fn init_producer_id_request_dec(s: Seq<u8>) -> Option<(Option<Seq<u8>>, i32)> {
    match nstr_dec(s) {
        None => None,
        Some(tx) => {
            let r1 = s.skip(tx.1 as int);
            if r1.len() < 4 {
                None
            } else {
                let timeout = i32_of_u32(be_dec(r1.subrange(0, 4))) as i32;
                if tx.1 + 4 == s.len() {
                    Some((tx.0, timeout))
                } else {
                    None
                }
            }
        },
    }
}

/// Reads an InitProducerId request body.
#[verifier::rlimit(100)]
#[verifier::spinoff_prover]
pub fn decode_init_producer_id_request(body: &[u8]) -> (r: Result<Body, Error>)
    ensures
        r is Ok <==> (match init_producer_id_request_dec(body@) {
            Some(t) => (match t.0 {
                Some(b) => sval(b),
                None => true,
            }),
            None => false,
        }),
        match r {
            Ok(b) => {
                &&& init_producer_id_request_dec(body@) matches Some(t)
                &&& b matches Body::InitProducerIdRequest {
                    transactional_id,
                    transaction_timeout_ms,
                    producer_id: None,
                    producer_epoch: None,
                } && (match (transactional_id, t.0) {
                    (Some(s2), Some(v)) => encode_utf8(s2@) == v,
                    (None, None) => true,
                    _ => false,
                }) && transaction_timeout_ms == t.1
            },
            Err(e) => e == Error::IncompleteFrame || e == Error::MalformedInput,
        },
{
    let len: usize = body.len();
    let ghost t: Seq<u8> = body@;
    proof {
        assert(t.skip(0) =~= t);
    }
    let (tx_bytes, c1) = match decode_nstr(body, 0) {
        Ok(p) => p,
        Err(e) => {
            return Err(e);
        },
    };
    if len - c1 < 4 {
        return Err(Error::IncompleteFrame);
    }
    proof {
        assert(t.skip(c1 as int).subrange(0, 4) =~= body@.subrange(c1 as int, c1 + 4));
    }
    let transaction_timeout_ms: i32 = read_i32(body, c1);
    if c1 + 4 != len {
        return Err(Error::MalformedInput);
    }
    let transactional_id: Option<String> = match &tx_bytes {
        None => None,
        Some(v) => {
            proof {
                assert(tx_bytes.deep_view() == Some(v@));
            }
            match utf8_string(v) {
                Ok(s2) => Some(s2),
                Err(e) => {
                    return Err(e);
                },
            }
        },
    };
    Ok(
        Body::InitProducerIdRequest {
            transactional_id,
            transaction_timeout_ms,
            producer_id: None,
            producer_epoch: None,
        },
    )
}

/// The InitProducerId response body: throttle, error code, producer id
/// and epoch.
pub open spec fn init_producer_id_response_enc(
    throttle_time_ms: i32,
    error_code: i16,
    producer_id: i64,
    producer_epoch: i16,
) -> Seq<u8> {
    i32_enc(throttle_time_ms) + i16_enc(error_code) + i64_enc(producer_id) + i16_enc(
        producer_epoch,
    )
}

/// Appends an InitProducerId response body.
pub fn encode_init_producer_id_response(
    out: &mut Vec<u8>,
    throttle_time_ms: i32,
    error_code: i16,
    producer_id: i64,
    producer_epoch: i16,
)
    ensures
        final(out)@ == old(out)@ + init_producer_id_response_enc(
            throttle_time_ms,
            error_code,
            producer_id,
            producer_epoch,
        ),
{
    push_i32(out, throttle_time_ms);
    push_i16(out, error_code);
    push_i64(out, producer_id);
    push_i16(out, producer_epoch);
    proof {
        assert(final(out)@ =~= old(out)@ + init_producer_id_response_enc(
            throttle_time_ms,
            error_code,
            producer_id,
            producer_epoch,
        ));
    }
}


// ===== FindCoordinator, versions 0 and 1 =====

/// The FindCoordinator request body: the key, and from version 1 the key
/// type, spanning the whole body.
pub open spec fn find_coordinator_request_dec(s: Seq<u8>, api_version: i16) -> Option<
    (Seq<u8>, i8),
> {
    match nstr_dec(s) {
        None => None,
        Some(k) => match k.0 {
            None => None,
            Some(kb) => {
                if api_version >= 1 {
                    let r1 = s.skip(k.1 as int);
                    if r1.len() < 1 {
                        None
                    } else if k.1 + 1 == s.len() {
                        Some((kb, crate::wire::i8_of_u8(r1[0]) as i8))
                    } else {
                        None
                    }
                } else {
                    if k.1 == s.len() {
                        Some((kb, 0i8))
                    } else {
                        None
                    }
                }
            },
        },
    }
}

/// Reads a FindCoordinator request body.
#[verifier::rlimit(100)]
#[verifier::spinoff_prover]
pub fn decode_find_coordinator_request(body: &[u8], api_version: i16) -> (r: Result<Body, Error>)
    ensures
        r is Ok <==> (match find_coordinator_request_dec(body@, api_version) {
            Some(t) => sval(t.0),
            None => false,
        }),
        match r {
            Ok(b) => {
                &&& find_coordinator_request_dec(body@, api_version) matches Some(t)
                &&& b matches Body::FindCoordinatorRequest {
                    key: Some(key),
                    key_type: Some(key_type),
                    coordinator_keys: None,
                } && encode_utf8(key@) == t.0 && key_type == t.1
            },
            Err(e) => e == Error::IncompleteFrame || e == Error::MalformedInput,
        },
{
    let len: usize = body.len();
    let ghost t: Seq<u8> = body@;
    proof {
        assert(t.skip(0) =~= t);
    }
    let (key, c1) = match decode_string(body, 0) {
        Ok(p) => p,
        Err(e) => {
            return Err(e);
        },
    };
    let key_type: i8 = if api_version >= 1 {
        if len - c1 < 1 {
            return Err(Error::IncompleteFrame);
        }
        proof {
            assert(t.skip(c1 as int)[0] == body@[c1 as int]);
        }
        let kt: i8 = crate::wire::i8_val(body[c1]);
        if c1 + 1 != len {
            return Err(Error::MalformedInput);
        }
        kt
    } else {
        if c1 != len {
            return Err(Error::MalformedInput);
        }
        0
    };
    Ok(
        Body::FindCoordinatorRequest {
            key: Some(key),
            key_type: Some(key_type),
            coordinator_keys: None,
        },
    )
}

/// The FindCoordinator response body: from version 1 the throttle time,
/// then the error code, from version 1 the null error message, then the
/// coordinator's node id, host and port.
pub open spec fn find_coordinator_response_enc(
    throttle_time_ms: i32,
    error_code: i16,
    node_id: i32,
    host: Seq<char>,
    port: i32,
    api_version: i16,
) -> Seq<u8> {
    (if api_version >= 1 {
        i32_enc(throttle_time_ms)
    } else {
        Seq::empty()
    }) + i16_enc(error_code) + (if api_version >= 1 {
        i16_enc(-1i16)
    } else {
        Seq::empty()
    }) + i32_enc(node_id) + str16_enc(host) + i32_enc(port)
}

/// Appends a FindCoordinator response body.
pub fn encode_find_coordinator_response(
    out: &mut Vec<u8>,
    throttle_time_ms: i32,
    error_code: i16,
    node_id: i32,
    host: &String,
    port: i32,
    api_version: i16,
)
    requires
        encode_utf8(host@).len() <= crate::frame::MAX_LEGACY_STR,
    ensures
        final(out)@ == old(out)@ + find_coordinator_response_enc(
            throttle_time_ms,
            error_code,
            node_id,
            host@,
            port,
            api_version,
        ),
{
    if api_version >= 1 {
        push_i32(out, throttle_time_ms);
    }
    push_i16(out, error_code);
    if api_version >= 1 {
        push_i16(out, -1);
    }
    push_i32(out, node_id);
    crate::frame::encode_string(out, host);
    push_i32(out, port);
    proof {
        assert(final(out)@ =~= old(out)@ + find_coordinator_response_enc(
            throttle_time_ms,
            error_code,
            node_id,
            host@,
            port,
            api_version,
        ));
    }
}

// ===== ListGroups, versions 0 and 1 =====

/// The ListGroups request body: empty.
pub open spec fn list_groups_request_dec(s: Seq<u8>) -> bool {
    s.len() == 0
}

/// Reads a ListGroups request body.
pub fn decode_list_groups_request(body: &[u8]) -> (r: Result<Body, Error>)
    ensures
        r is Ok <==> list_groups_request_dec(body@),
        match r {
            Ok(b) => b == (Body::ListGroupsRequest { states_filter: None, types_filter: None }),
            Err(e) => e == Error::MalformedInput,
        },
{
    if body.len() != 0 {
        return Err(Error::MalformedInput);
    }
    Ok(Body::ListGroupsRequest { states_filter: None, types_filter: None })
}

/// One listed group in wire order: its id, then its protocol type.
pub open spec fn listed_group_enc(group_id: Seq<char>, protocol_type: Seq<char>) -> Seq<u8> {
    str16_enc(group_id) + str16_enc(protocol_type)
}

/// The listed groups one after the other.
pub open spec fn listed_groups_cat(gs: Seq<ListedGroup>) -> Seq<u8>
    decreases gs.len(),
{
    if gs.len() == 0 {
        Seq::empty()
    } else {
        listed_group_enc(gs[0].group_id@, gs[0].protocol_type@) + listed_groups_cat(gs.skip(1))
    }
}

/// The ListGroups response body: from version 1 the throttle time, then
/// the error code and the count-prefixed groups.
pub open spec fn list_groups_response_enc(
    throttle_time_ms: i32,
    error_code: i16,
    groups: Seq<ListedGroup>,
    api_version: i16,
) -> Seq<u8> {
    (if api_version >= 1 {
        i32_enc(throttle_time_ms)
    } else {
        Seq::empty()
    }) + i16_enc(error_code) + i32_enc(groups.len() as i32) + listed_groups_cat(groups)
}

/// Every listed group's strings fit their legacy length prefixes.
pub open spec fn listed_groups_fit(gs: Seq<ListedGroup>) -> bool {
    &&& gs.len() <= 0x7fff_ffff
    &&& (forall|i: int|
        0 <= i < gs.len() ==> encode_utf8((#[trigger] gs[i]).group_id@).len()
            <= crate::frame::MAX_LEGACY_STR && encode_utf8(gs[i].protocol_type@).len()
            <= crate::frame::MAX_LEGACY_STR)
}

proof fn lemma_listed_groups_cat_concat(a: Seq<ListedGroup>, b: Seq<ListedGroup>)
    ensures
        listed_groups_cat(a + b) == listed_groups_cat(a) + listed_groups_cat(b),
    decreases a.len(),
{
    if a.len() == 0 {
        assert(a + b =~= b);
        assert(listed_groups_cat(a) + listed_groups_cat(b) =~= listed_groups_cat(b));
    } else {
        assert((a + b).skip(1) =~= a.skip(1) + b);
        lemma_listed_groups_cat_concat(a.skip(1), b);
        assert(listed_groups_cat(a + b) =~= listed_groups_cat(a) + listed_groups_cat(b));
    }
}

proof fn lemma_listed_groups_cat_one(g: ListedGroup)
    ensures
        listed_groups_cat(seq![g]) == listed_group_enc(g.group_id@, g.protocol_type@),
{
    assert(seq![g].skip(1) =~= Seq::<ListedGroup>::empty());
    assert(listed_groups_cat(Seq::<ListedGroup>::empty()) =~= Seq::<u8>::empty());
    assert(listed_groups_cat(seq![g]) =~= listed_group_enc(g.group_id@, g.protocol_type@));
}

/// Appends a ListGroups response body.
#[verifier::rlimit(100)]
#[verifier::spinoff_prover]
pub fn encode_list_groups_response(
    out: &mut Vec<u8>,
    throttle_time_ms: i32,
    error_code: i16,
    groups: &Vec<ListedGroup>,
    api_version: i16,
)
    requires
        listed_groups_fit(groups@),
    ensures
        final(out)@ == old(out)@ + list_groups_response_enc(
            throttle_time_ms,
            error_code,
            groups@,
            api_version,
        ),
{
    let ghost base: Seq<u8> = out@;
    if api_version >= 1 {
        push_i32(out, throttle_time_ms);
    }
    push_i16(out, error_code);
    push_i32(out, groups.len() as i32);
    let ghost mid: Seq<u8> = out@;
    let mut i: usize = 0;
    while i < groups.len()
        invariant
            i <= groups@.len(),
            listed_groups_fit(groups@),
            out@ == mid + listed_groups_cat(groups@.take(i as int)),
        decreases groups@.len() - i,
    {
        let ghost pre: Seq<ListedGroup> = groups@.take(i as int);
        crate::frame::encode_string(out, &groups[i].group_id);
        crate::frame::encode_string(out, &groups[i].protocol_type);
        proof {
            assert(groups@.take(i + 1) =~= pre + seq![groups@[i as int]]);
            lemma_listed_groups_cat_concat(pre, seq![groups@[i as int]]);
            lemma_listed_groups_cat_one(groups@[i as int]);
            assert(out@ =~= mid + listed_groups_cat(groups@.take(i + 1)));
        }
        i = i + 1;
    }
    proof {
        assert(groups@.take(groups@.len() as int) =~= groups@);
        assert(final(out)@ =~= base + list_groups_response_enc(
            throttle_time_ms,
            error_code,
            groups@,
            api_version,
        ));
    }
}

// ===== DeleteGroups, versions 0 and 1 =====

/// The string entries of a count-prefixed array, read from the head of
/// `s`: each must be present.
pub open spec fn strings_dec(s: Seq<u8>, count: nat) -> Option<(Seq<Seq<u8>>, nat)>
    decreases count,
{
    if count == 0 {
        Some((Seq::empty(), 0))
    } else {
        match nstr_dec(s) {
            None => None,
            Some(h) => match h.0 {
                None => None,
                Some(hb) => match strings_dec(s.skip(h.1 as int), (count - 1) as nat) {
                    None => None,
                    Some(t2) => Some((seq![hb] + t2.0, h.1 + t2.1)),
                },
            },
        }
    }
}

/// The DeleteGroups request body: the count-prefixed group names,
/// spanning the whole body.
pub open spec fn delete_groups_request_dec(s: Seq<u8>) -> Option<Seq<Seq<u8>>> {
    if s.len() < 4 {
        None
    } else {
        let c = i32_of_u32(be_dec(s.subrange(0, 4)));
        if c < 0 {
            None
        } else {
            match strings_dec(s.skip(4), c as nat) {
                None => None,
                Some(t) => if 4 + t.1 == s.len() {
                    Some(t.0)
                } else {
                    None
                },
            }
        }
    }
}

/// Every name in the array is a string.
pub open spec fn all_sval(bs: Seq<Seq<u8>>) -> bool {
    forall|i: int| 0 <= i < bs.len() ==> valid_utf8(#[trigger] bs[i])
}

/// Reads the count-prefixed strings at `pos`.
#[verifier::rlimit(100)]
#[verifier::spinoff_prover]
pub fn decode_strings(s: &[u8], pos: usize, count: usize) -> (r: Result<
    (Vec<String>, usize),
    Error,
>)
    requires
        pos <= s@.len(),
    ensures
        r is Ok <==> (match strings_dec(s@.skip(pos as int), count as nat) {
            Some(t) => all_sval(t.0),
            None => false,
        }),
        match r {
            Ok(p) => {
                &&& strings_dec(s@.skip(pos as int), count as nat) matches Some(t) && t.1
                    == p.1 && p.0@.len() == t.0.len() && (forall|i: int|
                    0 <= i < p.0@.len() ==> encode_utf8(#[trigger] p.0@[i]@) == t.0[i])
                &&& pos + p.1 <= s@.len()
            },
            Err(e) => e == Error::IncompleteFrame || e == Error::MalformedInput,
        },
{
    let ghost u0: Seq<u8> = s@.skip(pos as int);
    let len: usize = s.len();
    let mut acc: Vec<String> = Vec::new();
    let mut cur: usize = pos;
    let mut i: usize = 0;
    while i < count
        invariant
            pos <= cur <= len,
            len == s@.len(),
            i <= count,
            acc@.len() == i,
            u0 == s@.skip(pos as int),
            match strings_dec(s@.skip(cur as int), (count - i) as nat) {
                Some(tl) => {
                    &&& strings_dec(u0, count as nat) matches Some(whole) && whole.1 == ((cur
                        - pos) + tl.1) as nat && whole.0 == acc_names(acc@) + tl.0
                    &&& all_sval(acc_names(acc@))
                },
                None => strings_dec(u0, count as nat) is None,
            },
            forall|k: int|
                0 <= k < i ==> encode_utf8(#[trigger] acc@[k]@) == acc_names(acc@)[k],
        decreases count - i,
    {
        let ghost ucur: Seq<u8> = s@.skip(cur as int);
        let (st, n) = match decode_string(s, cur) {
            Ok(p) => p,
            Err(e) => {
                proof {
                    match strings_dec(ucur, (count - i) as nat) {
                        None => {
                            assert(strings_dec(u0, count as nat) is None);
                        },
                        Some(tl) => {
                            // the head entry is present but not UTF-8
                            let whole = strings_dec(u0, count as nat)->Some_0;
                            assert(nstr_dec(ucur) matches Some(h) && h.0 matches Some(hb)
                                && tl.0[0] == hb && !valid_utf8(hb));
                            assert(whole.0[i as int] == tl.0[0]);
                            assert(!all_sval(whole.0));
                        },
                    }
                }
                return Err(e);
            },
        };
        proof {
            assert(ucur.skip(n as int) =~= s@.skip(cur + n));
            let tl_next = strings_dec(s@.skip(cur + n), (count - i - 1) as nat);
            match tl_next {
                Some(tl) => {
                    assert(acc_names(acc@) + (seq![encode_utf8(st@)] + tl.0) =~= (acc_names(
                        acc@,
                    ) + seq![encode_utf8(st@)]) + tl.0);
                    assert(acc_names(acc@.push(st)) =~= acc_names(acc@) + seq![encode_utf8(
                        st@,
                    )]);
                },
                None => {},
            }
        }
        acc.push(st);
        cur = cur + n;
        i = i + 1;
    }
    proof {
        assert(strings_dec(s@.skip(cur as int), 0) == Some::<(Seq<Seq<u8>>, nat)>(
            (Seq::empty(), 0),
        ));
        assert(acc_names(acc@) + Seq::<Seq<u8>>::empty() =~= acc_names(acc@));
    }
    Ok((acc, cur - pos))
}

/// The UTF-8 byte images of a run of strings.
pub open spec fn acc_names(v: Seq<String>) -> Seq<Seq<u8>> {
    Seq::new(v.len(), |i: int| encode_utf8(v[i]@))
}

/// Reads a DeleteGroups request body.
#[verifier::rlimit(100)]
#[verifier::spinoff_prover]
pub fn decode_delete_groups_request(body: &[u8]) -> (r: Result<Body, Error>)
    ensures
        r is Ok <==> (match delete_groups_request_dec(body@) {
            Some(names) => all_sval(names),
            None => false,
        }),
        match r {
            Ok(b) => {
                &&& delete_groups_request_dec(body@) matches Some(names)
                &&& b matches Body::DeleteGroupsRequest { groups_names: Some(gs) } && gs@.len()
                    == names.len() && (forall|i: int|
                    0 <= i < gs@.len() ==> encode_utf8(#[trigger] gs@[i]@) == names[i])
            },
            Err(e) => e == Error::IncompleteFrame || e == Error::MalformedInput,
        },
{
    let len: usize = body.len();
    let ghost t: Seq<u8> = body@;
    if len < 4 {
        return Err(Error::IncompleteFrame);
    }
    proof {
        assert(t.subrange(0, 4) =~= body@.subrange(0, 4));
        assert(t.skip(0) =~= t);
    }
    let count: i32 = read_i32(body, 0);
    if count < 0 {
        return Err(Error::MalformedInput);
    }
    proof {
        assert(t.skip(4) =~= body@.skip(4));
    }
    let (names, used) = match decode_strings(body, 4, count as usize) {
        Ok(p) => p,
        Err(e) => {
            return Err(e);
        },
    };
    if 4 + used != len {
        return Err(Error::MalformedInput);
    }
    Ok(Body::DeleteGroupsRequest { groups_names: Some(names) })
}

/// One delete-group outcome in wire order: the group id, then its error
/// code.
pub open spec fn deletable_group_enc(group_id: Seq<char>, error_code: i16) -> Seq<u8> {
    str16_enc(group_id) + i16_enc(error_code)
}

/// The delete-group outcomes one after the other.
pub open spec fn deletable_groups_cat(gs: Seq<DeletableGroupResult>) -> Seq<u8>
    decreases gs.len(),
{
    if gs.len() == 0 {
        Seq::empty()
    } else {
        deletable_group_enc(gs[0].group_id@, gs[0].error_code) + deletable_groups_cat(gs.skip(1))
    }
}

/// The DeleteGroups response body: the throttle time, then the
/// count-prefixed per-group outcomes.
pub open spec fn delete_groups_response_enc(
    throttle_time_ms: i32,
    results: Seq<DeletableGroupResult>,
) -> Seq<u8> {
    i32_enc(throttle_time_ms) + i32_enc(results.len() as i32) + deletable_groups_cat(results)
}

/// Every outcome's group id fits its legacy length prefix.
pub open spec fn deletable_groups_fit(gs: Seq<DeletableGroupResult>) -> bool {
    &&& gs.len() <= 0x7fff_ffff
    &&& (forall|i: int|
        0 <= i < gs.len() ==> encode_utf8((#[trigger] gs[i]).group_id@).len()
            <= crate::frame::MAX_LEGACY_STR)
}

proof fn lemma_deletable_groups_cat_concat(a: Seq<DeletableGroupResult>, b: Seq<
    DeletableGroupResult,
>)
    ensures
        deletable_groups_cat(a + b) == deletable_groups_cat(a) + deletable_groups_cat(b),
    decreases a.len(),
{
    if a.len() == 0 {
        assert(a + b =~= b);
        assert(deletable_groups_cat(a) + deletable_groups_cat(b) =~= deletable_groups_cat(b));
    } else {
        assert((a + b).skip(1) =~= a.skip(1) + b);
        lemma_deletable_groups_cat_concat(a.skip(1), b);
        assert(deletable_groups_cat(a + b) =~= deletable_groups_cat(a) + deletable_groups_cat(
            b,
        ));
    }
}

proof fn lemma_deletable_groups_cat_one(g: DeletableGroupResult)
    ensures
        deletable_groups_cat(seq![g]) == deletable_group_enc(g.group_id@, g.error_code),
{
    assert(seq![g].skip(1) =~= Seq::<DeletableGroupResult>::empty());
    assert(deletable_groups_cat(Seq::<DeletableGroupResult>::empty()) =~= Seq::<u8>::empty());
    assert(deletable_groups_cat(seq![g]) =~= deletable_group_enc(g.group_id@, g.error_code));
}

/// Appends a DeleteGroups response body.
#[verifier::rlimit(100)]
#[verifier::spinoff_prover]
pub fn encode_delete_groups_response(
    out: &mut Vec<u8>,
    throttle_time_ms: i32,
    results: &Vec<DeletableGroupResult>,
)
    requires
        deletable_groups_fit(results@),
    ensures
        final(out)@ == old(out)@ + delete_groups_response_enc(throttle_time_ms, results@),
{
    let ghost base: Seq<u8> = out@;
    push_i32(out, throttle_time_ms);
    push_i32(out, results.len() as i32);
    let ghost mid: Seq<u8> = out@;
    let mut i: usize = 0;
    while i < results.len()
        invariant
            i <= results@.len(),
            deletable_groups_fit(results@),
            out@ == mid + deletable_groups_cat(results@.take(i as int)),
        decreases results@.len() - i,
    {
        let ghost pre: Seq<DeletableGroupResult> = results@.take(i as int);
        crate::frame::encode_string(out, &results[i].group_id);
        push_i16(out, results[i].error_code);
        proof {
            assert(results@.take(i + 1) =~= pre + seq![results@[i as int]]);
            lemma_deletable_groups_cat_concat(pre, seq![results@[i as int]]);
            lemma_deletable_groups_cat_one(results@[i as int]);
            assert(out@ =~= mid + deletable_groups_cat(results@.take(i + 1)));
        }
        i = i + 1;
    }
    proof {
        assert(results@.take(results@.len() as int) =~= results@);
        assert(final(out)@ =~= base + delete_groups_response_enc(throttle_time_ms, results@));
    }
}


/// Whether every listed group's strings fit, checked.
pub fn listed_groups_fit_check(gs: &Vec<ListedGroup>) -> (r: bool)
    ensures
        r == listed_groups_fit(gs@),
{
    if gs.len() > 0x7fff_ffff {
        return false;
    }
    let mut i: usize = 0;
    while i < gs.len()
        invariant
            i <= gs@.len(),
            gs@.len() <= 0x7fff_ffff,
            forall|k: int|
                0 <= k < i ==> encode_utf8((#[trigger] gs@[k]).group_id@).len()
                    <= crate::frame::MAX_LEGACY_STR && encode_utf8(gs@[k].protocol_type@).len()
                    <= crate::frame::MAX_LEGACY_STR,
        decreases gs@.len() - i,
    {
        if gs[i].group_id.as_str().as_bytes().len() > crate::frame::MAX_LEGACY_STR {
            return false;
        }
        if gs[i].protocol_type.as_str().as_bytes().len() > crate::frame::MAX_LEGACY_STR {
            return false;
        }
        i = i + 1;
    }
    true
}

/// Whether every delete-group outcome's group id fits, checked.
pub fn deletable_groups_fit_check(gs: &Vec<DeletableGroupResult>) -> (r: bool)
    ensures
        r == deletable_groups_fit(gs@),
{
    if gs.len() > 0x7fff_ffff {
        return false;
    }
    let mut i: usize = 0;
    while i < gs.len()
        invariant
            i <= gs@.len(),
            gs@.len() <= 0x7fff_ffff,
            forall|k: int|
                0 <= k < i ==> encode_utf8((#[trigger] gs@[k]).group_id@).len()
                    <= crate::frame::MAX_LEGACY_STR,
        decreases gs@.len() - i,
    {
        if gs[i].group_id.as_str().as_bytes().len() > crate::frame::MAX_LEGACY_STR {
            return false;
        }
        i = i + 1;
    }
    true
}


// ===== SyncGroup, versions 0 and 1 =====

/// The assignments of a SyncGroup request: each member's id and its raw
/// assignment bytes.
pub open spec fn sync_assignments_dec(s: Seq<u8>, count: nat) -> Option<
    (Seq<(Seq<u8>, Seq<u8>)>, nat),
>
    decreases count,
{
    if count == 0 {
        Some((Seq::empty(), 0))
    } else {
        match nstr_dec(s) {
            None => None,
            Some(m) => match m.0 {
                None => None,
                Some(mb) => match crate::frame::nbytes_dec(s.skip(m.1 as int)) {
                    None => None,
                    Some(a) => match a.0 {
                        None => None,
                        Some(ab) => match sync_assignments_dec(
                            s.skip(m.1 as int).skip(a.1 as int),
                            (count - 1) as nat,
                        ) {
                            None => None,
                            Some(t2) => Some((seq![(mb, ab)] + t2.0, m.1 + a.1 + t2.1)),
                        },
                    },
                },
            },
        }
    }
}

/// The SyncGroup request body: group id, generation id, member id, and
/// the count-prefixed assignments, spanning the whole body.
pub open spec fn sync_group_request_dec(s: Seq<u8>) -> Option<
    (Seq<u8>, i32, Seq<u8>, Seq<(Seq<u8>, Seq<u8>)>),
> {
    match nstr_dec(s) {
        None => None,
        Some(g) => match g.0 {
            None => None,
            Some(gb) => {
                let r1 = s.skip(g.1 as int);
                if r1.len() < 4 {
                    None
                } else {
                    let gen = i32_of_u32(be_dec(r1.subrange(0, 4))) as i32;
                    match nstr_dec(r1.skip(4)) {
                        None => None,
                        Some(m) => match m.0 {
                            None => None,
                            Some(mb) => {
                                let r2 = r1.skip(4).skip(m.1 as int);
                                if r2.len() < 4 {
                                    None
                                } else {
                                    let count = i32_of_u32(be_dec(r2.subrange(0, 4)));
                                    if count < 0 {
                                        None
                                    } else {
                                        match sync_assignments_dec(r2.skip(4), count as nat) {
                                            None => None,
                                            Some(t2) => if g.1 + 4 + m.1 + 4 + t2.1 == s.len() {
                                                Some((gb, gen, mb, t2.0))
                                            } else {
                                                None
                                            },
                                        }
                                    }
                                }
                            },
                        },
                    }
                }
            },
        },
    }
}

/// Every member id in the assignments is a string.
pub open spec fn assignments_sval(a: Seq<(Seq<u8>, Seq<u8>)>) -> bool {
    forall|i: int| 0 <= i < a.len() ==> valid_utf8((#[trigger] a[i]).0)
}

/// The UTF-8 and byte images of decoded assignments.
pub open spec fn assignment_views(v: Seq<SyncGroupAssignment>) -> Seq<(Seq<u8>, Seq<u8>)> {
    Seq::new(v.len(), |i: int| (encode_utf8(v[i].member_id@), v[i].assignment@))
}

/// Reads the count-prefixed assignments at `pos`.
#[verifier::rlimit(100)]
#[verifier::spinoff_prover]
pub fn decode_sync_assignments(s: &[u8], pos: usize, count: usize) -> (r: Result<
    (Vec<SyncGroupAssignment>, usize),
    Error,
>)
    requires
        pos <= s@.len(),
    ensures
        r is Ok <==> (match sync_assignments_dec(s@.skip(pos as int), count as nat) {
            Some(t) => assignments_sval(t.0),
            None => false,
        }),
        match r {
            Ok(p) => {
                &&& sync_assignments_dec(s@.skip(pos as int), count as nat) matches Some(t)
                    && t.1 == p.1 && assignment_views(p.0@) == t.0
                &&& pos + p.1 <= s@.len()
            },
            Err(e) => e == Error::IncompleteFrame || e == Error::MalformedInput,
        },
{
    let ghost u0: Seq<u8> = s@.skip(pos as int);
    let len: usize = s.len();
    let mut acc: Vec<SyncGroupAssignment> = Vec::new();
    let mut cur: usize = pos;
    let mut i: usize = 0;
    proof {
        assert(assignment_views(acc@) =~= Seq::<(Seq<u8>, Seq<u8>)>::empty());
    }
    while i < count
        invariant
            pos <= cur <= len,
            len == s@.len(),
            i <= count,
            acc@.len() == i,
            u0 == s@.skip(pos as int),
            match sync_assignments_dec(s@.skip(cur as int), (count - i) as nat) {
                Some(tl) => {
                    &&& sync_assignments_dec(u0, count as nat) matches Some(whole) && whole.1
                        == ((cur - pos) + tl.1) as nat && whole.0 == assignment_views(acc@)
                        + tl.0
                    &&& assignments_sval(assignment_views(acc@))
                },
                None => sync_assignments_dec(u0, count as nat) is None,
            },
        decreases count - i,
    {
        let ghost ucur: Seq<u8> = s@.skip(cur as int);
        let ghost acc_pre: Vec<SyncGroupAssignment> = acc;
        let (member_id, c1) = match decode_string(s, cur) {
            Ok(p) => p,
            Err(e) => {
                proof {
                    match sync_assignments_dec(ucur, (count - i) as nat) {
                        None => {
                            assert(sync_assignments_dec(u0, count as nat) is None);
                        },
                        Some(tl) => {
                            let whole = sync_assignments_dec(u0, count as nat)->Some_0;
                            assert(nstr_dec(ucur) matches Some(h) && h.0 matches Some(hb)
                                && tl.0[0].0 == hb && !valid_utf8(hb));
                            assert(whole.0[i as int] == tl.0[0]);
                            assert(!assignments_sval(whole.0));
                        },
                    }
                }
                return Err(e);
            },
        };
        proof {
            assert(ucur.skip(c1 as int) =~= s@.skip(cur + c1));
        }
        let (assignment_bytes, c2) = match crate::frame::decode_nbytes(s, cur + c1) {
            Ok(p) => p,
            Err(e) => {
                proof {
                    assert(sync_assignments_dec(ucur, (count - i) as nat) is None);
                }
                return Err(e);
            },
        };
        let ghost abv: Option<Seq<u8>> = assignment_bytes.deep_view();
        let assignment: Vec<u8> = match assignment_bytes {
            Some(v) => v,
            None => {
                proof {
                    assert(sync_assignments_dec(ucur, (count - i) as nat) is None);
                }
                return Err(Error::MalformedInput);
            },
        };
        proof {
            assert(abv == Some(assignment@));
        }
        proof {
            assert(ucur.skip(c1 as int).skip(c2 as int) =~= s@.skip(cur + c1 + c2));
            let tl_next = sync_assignments_dec(
                s@.skip(cur + c1 + c2),
                (count - i - 1) as nat,
            );
            match tl_next {
                Some(tl) => {
                    assert(assignment_views(acc@) + (seq![
                        (encode_utf8(member_id@), assignment@),
                    ] + tl.0) =~= (assignment_views(acc@) + seq![
                        (encode_utf8(member_id@), assignment@),
                    ]) + tl.0);
                },
                None => {},
            }
        }
        let ghost mv: Seq<char> = member_id@;
        let ghost av: Seq<u8> = assignment@;
        acc.push(SyncGroupAssignment { member_id, assignment });
        proof {
            assert(assignment_views(acc@) =~= assignment_views(acc_pre@) + seq![
                (encode_utf8(mv), av),
            ]);
        }
        cur = cur + c1 + c2;
        i = i + 1;
    }
    proof {
        assert(sync_assignments_dec(s@.skip(cur as int), 0) == Some::<
            (Seq<(Seq<u8>, Seq<u8>)>, nat),
        >((Seq::empty(), 0)));
        assert(assignment_views(acc@) + Seq::<(Seq<u8>, Seq<u8>)>::empty() =~= assignment_views(
            acc@,
        ));
    }
    Ok((acc, cur - pos))
}

/// Reads a SyncGroup request body.
#[verifier::rlimit(100)]
#[verifier::spinoff_prover]
pub fn decode_sync_group_request(body: &[u8]) -> (r: Result<Body, Error>)
    ensures
        r is Ok <==> (match sync_group_request_dec(body@) {
            Some(t) => sval(t.0) && sval(t.2) && assignments_sval(t.3),
            None => false,
        }),
        match r {
            Ok(b) => {
                &&& sync_group_request_dec(body@) matches Some(t)
                &&& b matches Body::SyncGroupRequest {
                    group_id,
                    generation_id,
                    member_id,
                    group_instance_id: None,
                    protocol_type: None,
                    protocol_name: None,
                    assignments: Some(assignments),
                } && encode_utf8(group_id@) == t.0 && generation_id == t.1 && encode_utf8(
                    member_id@,
                ) == t.2 && assignment_views(assignments@) == t.3
            },
            Err(e) => e == Error::IncompleteFrame || e == Error::MalformedInput,
        },
{
    let len: usize = body.len();
    let ghost t: Seq<u8> = body@;
    proof {
        assert(t.skip(0) =~= t);
    }
    let (group_id, c1) = match decode_string(body, 0) {
        Ok(p) => p,
        Err(e) => {
            return Err(e);
        },
    };
    if len - c1 < 4 {
        return Err(Error::IncompleteFrame);
    }
    proof {
        assert(t.skip(c1 as int).subrange(0, 4) =~= body@.subrange(c1 as int, c1 + 4));
        assert(t.skip(c1 as int).skip(4) =~= body@.skip(c1 + 4));
    }
    let generation_id: i32 = read_i32(body, c1);
    let (member_id, c2) = match decode_string(body, c1 + 4) {
        Ok(p) => p,
        Err(e) => {
            return Err(e);
        },
    };
    if len - (c1 + 4 + c2) < 4 {
        return Err(Error::IncompleteFrame);
    }
    proof {
        assert(t.skip(c1 as int).skip(4).skip(c2 as int) =~= body@.skip(c1 + 4 + c2));
        assert(body@.skip(c1 + 4 + c2).subrange(0, 4) =~= body@.subrange(
            c1 + 4 + c2,
            c1 + 4 + c2 + 4,
        ));
        assert(body@.skip(c1 + 4 + c2).skip(4) =~= body@.skip(c1 + 4 + c2 + 4));
    }
    let count: i32 = read_i32(body, c1 + 4 + c2);
    if count < 0 {
        return Err(Error::MalformedInput);
    }
    let (assignments, c3) = match decode_sync_assignments(
        body,
        c1 + 4 + c2 + 4,
        count as usize,
    ) {
        Ok(p) => p,
        Err(e) => {
            return Err(e);
        },
    };
    if c1 + 4 + c2 + 4 + c3 != len {
        return Err(Error::MalformedInput);
    }
    Ok(
        Body::SyncGroupRequest {
            group_id,
            generation_id,
            member_id,
            group_instance_id: None,
            protocol_type: None,
            protocol_name: None,
            assignments: Some(assignments),
        },
    )
}

/// The SyncGroup response body: from version 1 the throttle time, the
/// error code, then the member's assignment bytes.
pub open spec fn sync_group_response_enc(
    throttle_time_ms: i32,
    error_code: i16,
    assignment: Seq<u8>,
    api_version: i16,
) -> Seq<u8> {
    (if api_version >= 1 {
        i32_enc(throttle_time_ms)
    } else {
        Seq::empty()
    }) + i16_enc(error_code) + i32_enc(assignment.len() as i32) + assignment
}

/// Appends a SyncGroup response body.
pub fn encode_sync_group_response(
    out: &mut Vec<u8>,
    throttle_time_ms: i32,
    error_code: i16,
    assignment: &Vec<u8>,
    api_version: i16,
)
    requires
        assignment@.len() <= 0x7fff_ffff,
    ensures
        final(out)@ == old(out)@ + sync_group_response_enc(
            throttle_time_ms,
            error_code,
            assignment@,
            api_version,
        ),
{
    if api_version >= 1 {
        push_i32(out, throttle_time_ms);
    }
    push_i16(out, error_code);
    push_i32(out, assignment.len() as i32);
    crate::record::push_bytes(out, assignment);
    proof {
        assert(final(out)@ =~= old(out)@ + sync_group_response_enc(
            throttle_time_ms,
            error_code,
            assignment@,
            api_version,
        ));
    }
}


// ===== DeleteTopics, versions 0 and 1 =====

/// The DeleteTopics request body: the count-prefixed topic names and the
/// timeout, spanning the whole body.
pub open spec fn delete_topics_request_dec(s: Seq<u8>) -> Option<(Seq<Seq<u8>>, i32)> {
    if s.len() < 4 {
        None
    } else {
        let c = i32_of_u32(be_dec(s.subrange(0, 4)));
        if c < 0 {
            None
        } else {
            match strings_dec(s.skip(4), c as nat) {
                None => None,
                Some(t) => {
                    let r1 = s.skip(4).skip(t.1 as int);
                    if r1.len() < 4 {
                        None
                    } else {
                        let timeout = i32_of_u32(be_dec(r1.subrange(0, 4))) as i32;
                        if 4 + t.1 + 4 == s.len() {
                            Some((t.0, timeout))
                        } else {
                            None
                        }
                    }
                },
            }
        }
    }
}

/// Reads a DeleteTopics request body.
#[verifier::rlimit(100)]
#[verifier::spinoff_prover]
pub fn decode_delete_topics_request(body: &[u8]) -> (r: Result<Body, Error>)
    ensures
        r is Ok <==> (match delete_topics_request_dec(body@) {
            Some(t) => all_sval(t.0),
            None => false,
        }),
        match r {
            Ok(b) => {
                &&& delete_topics_request_dec(body@) matches Some(t)
                &&& b matches Body::DeleteTopicsRequest {
                    topics: None,
                    topic_names: Some(names),
                    timeout_ms,
                } && names@.len() == t.0.len() && (forall|i: int|
                    0 <= i < names@.len() ==> encode_utf8(#[trigger] names@[i]@) == t.0[i])
                    && timeout_ms == t.1
            },
            Err(e) => e == Error::IncompleteFrame || e == Error::MalformedInput,
        },
{
    let len: usize = body.len();
    let ghost t: Seq<u8> = body@;
    if len < 4 {
        return Err(Error::IncompleteFrame);
    }
    proof {
        assert(t.subrange(0, 4) =~= body@.subrange(0, 4));
        assert(t.skip(4) =~= body@.skip(4));
    }
    let count: i32 = read_i32(body, 0);
    if count < 0 {
        return Err(Error::MalformedInput);
    }
    let (names, used) = match decode_strings(body, 4, count as usize) {
        Ok(p) => p,
        Err(e) => {
            return Err(e);
        },
    };
    if len - (4 + used) < 4 {
        return Err(Error::IncompleteFrame);
    }
    proof {
        assert(t.skip(4).skip(used as int) =~= body@.skip(4 + used));
        assert(body@.skip(4 + used).subrange(0, 4) =~= body@.subrange(
            4 + used,
            4 + used + 4,
        ));
    }
    let timeout_ms: i32 = read_i32(body, 4 + used);
    if 4 + used + 4 != len {
        return Err(Error::MalformedInput);
    }
    Ok(Body::DeleteTopicsRequest { topics: None, topic_names: Some(names), timeout_ms })
}

/// One delete-topic outcome in wire order: the topic name, then its error
/// code.
pub open spec fn deletable_topic_enc(name: Seq<char>, error_code: i16) -> Seq<u8> {
    str16_enc(name) + i16_enc(error_code)
}

/// The delete-topic outcomes one after the other; an outcome without a
/// name reads back as the empty name.
pub open spec fn deletable_topics_cat(ts: Seq<DeletableTopicResult>) -> Seq<u8>
    decreases ts.len(),
{
    if ts.len() == 0 {
        Seq::empty()
    } else {
        deletable_topic_enc(
            (match ts[0].name {
                Some(n) => n@,
                None => Seq::empty(),
            }),
            ts[0].error_code,
        ) + deletable_topics_cat(ts.skip(1))
    }
}

/// The DeleteTopics response body: from version 1 the throttle time, then
/// the count-prefixed per-topic outcomes.
pub open spec fn delete_topics_response_enc(
    throttle_time_ms: i32,
    responses: Seq<DeletableTopicResult>,
    api_version: i16,
) -> Seq<u8> {
    (if api_version >= 1 {
        i32_enc(throttle_time_ms)
    } else {
        Seq::empty()
    }) + i32_enc(responses.len() as i32) + deletable_topics_cat(responses)
}

/// Every outcome's name fits its legacy length prefix.
pub open spec fn deletable_topics_fit(ts: Seq<DeletableTopicResult>) -> bool {
    &&& ts.len() <= 0x7fff_ffff
    &&& (forall|i: int|
        0 <= i < ts.len() ==> encode_utf8(
            (match (#[trigger] ts[i]).name {
                Some(n) => n@,
                None => Seq::empty(),
            }),
        ).len() <= crate::frame::MAX_LEGACY_STR)
}

proof fn lemma_deletable_topics_cat_concat(a: Seq<DeletableTopicResult>, b: Seq<
    DeletableTopicResult,
>)
    ensures
        deletable_topics_cat(a + b) == deletable_topics_cat(a) + deletable_topics_cat(b),
    decreases a.len(),
{
    if a.len() == 0 {
        assert(a + b =~= b);
        assert(deletable_topics_cat(a) + deletable_topics_cat(b) =~= deletable_topics_cat(b));
    } else {
        assert((a + b).skip(1) =~= a.skip(1) + b);
        lemma_deletable_topics_cat_concat(a.skip(1), b);
        assert(deletable_topics_cat(a + b) =~= deletable_topics_cat(a) + deletable_topics_cat(
            b,
        ));
    }
}

proof fn lemma_deletable_topics_cat_one(g: DeletableTopicResult)
    ensures
        deletable_topics_cat(seq![g]) == deletable_topic_enc(
            (match g.name {
                Some(n) => n@,
                None => Seq::empty(),
            }),
            g.error_code,
        ),
{
    assert(seq![g].skip(1) =~= Seq::<DeletableTopicResult>::empty());
    assert(deletable_topics_cat(Seq::<DeletableTopicResult>::empty()) =~= Seq::<u8>::empty());
    assert(deletable_topics_cat(seq![g]) =~= deletable_topic_enc(
        (match g.name {
            Some(n) => n@,
            None => Seq::empty(),
        }),
        g.error_code,
    ));
}

/// Whether every outcome's name fits, checked.
pub fn deletable_topics_fit_check(ts: &Vec<DeletableTopicResult>) -> (r: bool)
    ensures
        r == deletable_topics_fit(ts@),
{
    if ts.len() > 0x7fff_ffff {
        return false;
    }
    let mut i: usize = 0;
    while i < ts.len()
        invariant
            i <= ts@.len(),
            ts@.len() <= 0x7fff_ffff,
            forall|k: int|
                0 <= k < i ==> encode_utf8(
                    (match (#[trigger] ts@[k]).name {
                        Some(n) => n@,
                        None => Seq::empty(),
                    }),
                ).len() <= crate::frame::MAX_LEGACY_STR,
        decreases ts@.len() - i,
    {
        match &ts[i].name {
            None => {
                proof {
                    assert(encode_utf8(Seq::<char>::empty()) =~= Seq::<u8>::empty());
                }
            },
            Some(n) => {
                if n.as_str().as_bytes().len() > crate::frame::MAX_LEGACY_STR {
                    return false;
                }
            },
        }
        i = i + 1;
    }
    true
}

/// Appends a DeleteTopics response body.
#[verifier::rlimit(100)]
#[verifier::spinoff_prover]
pub fn encode_delete_topics_response(
    out: &mut Vec<u8>,
    throttle_time_ms: i32,
    responses: &Vec<DeletableTopicResult>,
    api_version: i16,
)
    requires
        deletable_topics_fit(responses@),
    ensures
        final(out)@ == old(out)@ + delete_topics_response_enc(
            throttle_time_ms,
            responses@,
            api_version,
        ),
{
    let ghost base: Seq<u8> = out@;
    if api_version >= 1 {
        push_i32(out, throttle_time_ms);
    }
    push_i32(out, responses.len() as i32);
    let ghost mid: Seq<u8> = out@;
    let empty: String = String::from_str("");
    proof {
        reveal_strlit("");
        assert(empty@ =~= Seq::<char>::empty());
        assert(encode_utf8(Seq::<char>::empty()) =~= Seq::<u8>::empty());
    }
    let mut i: usize = 0;
    while i < responses.len()
        invariant
            i <= responses@.len(),
            deletable_topics_fit(responses@),
            empty@ == Seq::<char>::empty(),
            out@ == mid + deletable_topics_cat(responses@.take(i as int)),
        decreases responses@.len() - i,
    {
        let ghost pre: Seq<DeletableTopicResult> = responses@.take(i as int);
        let name: &String = match &responses[i].name {
            Some(n) => n,
            None => &empty,
        };
        proof {
            assert(encode_utf8(name@).len() <= crate::frame::MAX_LEGACY_STR);
        }
        crate::frame::encode_string(out, name);
        push_i16(out, responses[i].error_code);
        proof {
            assert(responses@.take(i + 1) =~= pre + seq![responses@[i as int]]);
            lemma_deletable_topics_cat_concat(pre, seq![responses@[i as int]]);
            lemma_deletable_topics_cat_one(responses@[i as int]);
            assert(out@ =~= mid + deletable_topics_cat(responses@.take(i + 1)));
        }
        i = i + 1;
    }
    proof {
        assert(responses@.take(responses@.len() as int) =~= responses@);
        assert(final(out)@ =~= base + delete_topics_response_enc(
            throttle_time_ms,
            responses@,
            api_version,
        ));
    }
}


// ===== AddPartitionsToTxn, versions 0 and 1 =====

/// A count-prefixed run of 32-bit integers, read from the head of `s`.
pub open spec fn i32s_dec(s: Seq<u8>, count: nat) -> Option<(Seq<i32>, nat)>
    decreases count,
{
    if count == 0 {
        Some((Seq::empty(), 0))
    } else {
        if s.len() < 4 {
            None
        } else {
            let v = i32_of_u32(be_dec(s.subrange(0, 4))) as i32;
            match i32s_dec(s.skip(4), (count - 1) as nat) {
                None => None,
                Some(t) => Some((seq![v] + t.0, 4 + t.1)),
            }
        }
    }
}

/// Reads `count` 32-bit integers at `pos`.
#[verifier::rlimit(100)]
#[verifier::spinoff_prover]
pub fn decode_i32s(s: &[u8], pos: usize, count: usize) -> (r: Result<(Vec<i32>, usize), Error>)
    requires
        pos <= s@.len(),
    ensures
        r is Ok <==> i32s_dec(s@.skip(pos as int), count as nat) is Some,
        match r {
            Ok(p) => {
                &&& i32s_dec(s@.skip(pos as int), count as nat) == Some::<(Seq<i32>, nat)>(
                    (p.0@, p.1 as nat),
                )
                &&& pos + p.1 <= s@.len()
            },
            Err(e) => e == Error::IncompleteFrame,
        },
{
    let ghost u0: Seq<u8> = s@.skip(pos as int);
    let len: usize = s.len();
    let mut acc: Vec<i32> = Vec::new();
    let mut cur: usize = pos;
    let mut i: usize = 0;
    proof {
        assert(acc@ =~= Seq::<i32>::empty());
    }
    while i < count
        invariant
            pos <= cur <= len,
            len == s@.len(),
            i <= count,
            acc@.len() == i,
            u0 == s@.skip(pos as int),
            match i32s_dec(s@.skip(cur as int), (count - i) as nat) {
                Some(tl) => i32s_dec(u0, count as nat) == Some::<(Seq<i32>, nat)>(
                    (acc@ + tl.0, ((cur - pos) + tl.1) as nat),
                ),
                None => i32s_dec(u0, count as nat) is None,
            },
        decreases count - i,
    {
        let ghost ucur: Seq<u8> = s@.skip(cur as int);
        if len - cur < 4 {
            proof {
                assert(i32s_dec(ucur, (count - i) as nat) is None);
            }
            return Err(Error::IncompleteFrame);
        }
        proof {
            assert(ucur.subrange(0, 4) =~= s@.subrange(cur as int, cur + 4));
            assert(ucur.skip(4) =~= s@.skip(cur + 4));
        }
        let v: i32 = read_i32(s, cur);
        proof {
            match i32s_dec(s@.skip(cur + 4), (count - i - 1) as nat) {
                Some(tl) => {
                    assert(acc@ + (seq![v] + tl.0) =~= (acc@ + seq![v]) + tl.0);
                    assert(acc@ + seq![v] =~= acc@.push(v));
                },
                None => {},
            }
        }
        acc.push(v);
        cur = cur + 4;
        i = i + 1;
    }
    proof {
        assert(i32s_dec(s@.skip(cur as int), 0) == Some::<(Seq<i32>, nat)>((Seq::empty(), 0)));
        assert(acc@ + Seq::<i32>::empty() =~= acc@);
    }
    Ok((acc, cur - pos))
}

/// The topics of an AddPartitionsToTxn request: each name with its
/// count-prefixed partition indexes.
pub open spec fn txn_topics_dec(s: Seq<u8>, count: nat) -> Option<(Seq<(Seq<u8>, Seq<i32>)>, nat)>
    decreases count,
{
    if count == 0 {
        Some((Seq::empty(), 0))
    } else {
        match nstr_dec(s) {
            None => None,
            Some(n) => match n.0 {
                None => None,
                Some(nb) => {
                    let r1 = s.skip(n.1 as int);
                    if r1.len() < 4 {
                        None
                    } else {
                        let c = i32_of_u32(be_dec(r1.subrange(0, 4)));
                        if c < 0 {
                            None
                        } else {
                            match i32s_dec(r1.skip(4), c as nat) {
                                None => None,
                                Some(ps) => match txn_topics_dec(
                                    r1.skip(4).skip(ps.1 as int),
                                    (count - 1) as nat,
                                ) {
                                    None => None,
                                    Some(t2) => Some(
                                        (seq![(nb, ps.0)] + t2.0, n.1 + 4 + ps.1 + t2.1),
                                    ),
                                },
                            }
                        }
                    }
                },
            },
        }
    }
}

/// Every topic name in the run is a string.
pub open spec fn txn_topics_sval(ts: Seq<(Seq<u8>, Seq<i32>)>) -> bool {
    forall|i: int| 0 <= i < ts.len() ==> valid_utf8((#[trigger] ts[i]).0)
}

/// The name and partition images of decoded transactional topics.
pub open spec fn txn_topic_views(v: Seq<TxnTopic>) -> Seq<(Seq<u8>, Seq<i32>)> {
    Seq::new(v.len(), |i: int| (encode_utf8(v[i].name@), v[i].partitions@))
}

/// Reads `count` transactional topics at `pos`.
#[verifier::rlimit(100)]
#[verifier::spinoff_prover]
pub fn decode_txn_topics(s: &[u8], pos: usize, count: usize) -> (r: Result<
    (Vec<TxnTopic>, usize),
    Error,
>)
    requires
        pos <= s@.len(),
    ensures
        r is Ok <==> (match txn_topics_dec(s@.skip(pos as int), count as nat) {
            Some(t) => txn_topics_sval(t.0),
            None => false,
        }),
        match r {
            Ok(p) => {
                &&& txn_topics_dec(s@.skip(pos as int), count as nat) matches Some(t) && t.1
                    == p.1 && txn_topic_views(p.0@) == t.0
                &&& pos + p.1 <= s@.len()
            },
            Err(e) => e == Error::IncompleteFrame || e == Error::MalformedInput,
        },
{
    let ghost u0: Seq<u8> = s@.skip(pos as int);
    let len: usize = s.len();
    let mut acc: Vec<TxnTopic> = Vec::new();
    let mut cur: usize = pos;
    let mut i: usize = 0;
    proof {
        assert(txn_topic_views(acc@) =~= Seq::<(Seq<u8>, Seq<i32>)>::empty());
    }
    while i < count
        invariant
            pos <= cur <= len,
            len == s@.len(),
            i <= count,
            acc@.len() == i,
            u0 == s@.skip(pos as int),
            match txn_topics_dec(s@.skip(cur as int), (count - i) as nat) {
                Some(tl) => {
                    &&& txn_topics_dec(u0, count as nat) matches Some(whole) && whole.1 == ((
                    cur - pos) + tl.1) as nat && whole.0 == txn_topic_views(acc@) + tl.0
                    &&& txn_topics_sval(txn_topic_views(acc@))
                },
                None => txn_topics_dec(u0, count as nat) is None,
            },
        decreases count - i,
    {
        let ghost ucur: Seq<u8> = s@.skip(cur as int);
        let ghost acc_pre: Vec<TxnTopic> = acc;
        let (name, c1) = match decode_string(s, cur) {
            Ok(p) => p,
            Err(e) => {
                proof {
                    match txn_topics_dec(ucur, (count - i) as nat) {
                        None => {
                            assert(txn_topics_dec(u0, count as nat) is None);
                        },
                        Some(tl) => {
                            let whole = txn_topics_dec(u0, count as nat)->Some_0;
                            assert(nstr_dec(ucur) matches Some(h) && h.0 matches Some(hb)
                                && tl.0[0].0 == hb && !valid_utf8(hb));
                            assert(whole.0[i as int] == tl.0[0]);
                            assert(!txn_topics_sval(whole.0));
                        },
                    }
                }
                return Err(e);
            },
        };
        proof {
            assert(ucur.skip(c1 as int) =~= s@.skip(cur + c1));
        }
        if len - (cur + c1) < 4 {
            proof {
                assert(txn_topics_dec(ucur, (count - i) as nat) is None);
            }
            return Err(Error::IncompleteFrame);
        }
        proof {
            assert(s@.skip(cur + c1).subrange(0, 4) =~= s@.subrange(
                cur + c1,
                cur + c1 + 4,
            ));
            assert(s@.skip(cur + c1).skip(4) =~= s@.skip(cur + c1 + 4));
        }
        let c: i32 = read_i32(s, cur + c1);
        if c < 0 {
            proof {
                assert(txn_topics_dec(ucur, (count - i) as nat) is None);
            }
            return Err(Error::MalformedInput);
        }
        let (partitions, c2) = match decode_i32s(s, cur + c1 + 4, c as usize) {
            Ok(p) => p,
            Err(e) => {
                proof {
                    assert(txn_topics_dec(ucur, (count - i) as nat) is None);
                }
                return Err(e);
            },
        };
        proof {
            assert(s@.skip(cur + c1).skip(4).skip(c2 as int) =~= s@.skip(
                cur + c1 + 4 + c2,
            ));
            let tl_next = txn_topics_dec(s@.skip(cur + c1 + 4 + c2), (count - i - 1) as nat);
            match tl_next {
                Some(tl) => {
                    assert(txn_topic_views(acc@) + (seq![
                        (encode_utf8(name@), partitions@),
                    ] + tl.0) =~= (txn_topic_views(acc@) + seq![
                        (encode_utf8(name@), partitions@),
                    ]) + tl.0);
                },
                None => {},
            }
        }
        let ghost nv: Seq<char> = name@;
        let ghost pv: Seq<i32> = partitions@;
        acc.push(TxnTopic { name, partitions });
        proof {
            assert(txn_topic_views(acc@) =~= txn_topic_views(acc_pre@) + seq![
                (encode_utf8(nv), pv),
            ]);
        }
        cur = cur + c1 + 4 + c2;
        i = i + 1;
    }
    proof {
        assert(txn_topics_dec(s@.skip(cur as int), 0) == Some::<(Seq<(Seq<u8>, Seq<i32>)>, nat)>(
            (Seq::empty(), 0),
        ));
        assert(txn_topic_views(acc@) + Seq::<(Seq<u8>, Seq<i32>)>::empty() =~= txn_topic_views(
            acc@,
        ));
    }
    Ok((acc, cur - pos))
}

/// The AddPartitionsToTxn request body: transactional id, producer id and
/// epoch, and the count-prefixed topics, spanning the whole body.
pub open spec fn add_partitions_request_dec(s: Seq<u8>) -> Option<
    (Seq<u8>, i64, i16, Seq<(Seq<u8>, Seq<i32>)>),
> {
    match nstr_dec(s) {
        None => None,
        Some(tx) => match tx.0 {
            None => None,
            Some(tb) => {
                let r1 = s.skip(tx.1 as int);
                if r1.len() < 14 {
                    None
                } else {
                    let pid = i64_of_u64(be_dec(r1.subrange(0, 8))) as i64;
                    let epoch = i16_of_u16(be_dec(r1.subrange(8, 10))) as i16;
                    let c = i32_of_u32(be_dec(r1.subrange(10, 14)));
                    if c < 0 {
                        None
                    } else {
                        match txn_topics_dec(r1.skip(14), c as nat) {
                            None => None,
                            Some(t2) => if tx.1 + 14 + t2.1 == s.len() {
                                Some((tb, pid, epoch, t2.0))
                            } else {
                                None
                            },
                        }
                    }
                }
            },
        },
    }
}

/// Reads an AddPartitionsToTxn request body.
#[verifier::rlimit(100)]
#[verifier::spinoff_prover]
pub fn decode_add_partitions_request(body: &[u8]) -> (r: Result<Body, Error>)
    ensures
        r is Ok <==> (match add_partitions_request_dec(body@) {
            Some(t) => sval(t.0) && txn_topics_sval(t.3),
            None => false,
        }),
        match r {
            Ok(b) => {
                &&& add_partitions_request_dec(body@) matches Some(t)
                &&& b matches Body::AddPartitionsToTxnRequest {
                    transactional_id,
                    producer_id,
                    producer_epoch,
                    topics,
                } && encode_utf8(transactional_id@) == t.0 && producer_id == t.1
                    && producer_epoch == t.2 && txn_topic_views(topics@) == t.3
            },
            Err(e) => e == Error::IncompleteFrame || e == Error::MalformedInput,
        },
{
    let len: usize = body.len();
    let ghost t: Seq<u8> = body@;
    proof {
        assert(t.skip(0) =~= t);
    }
    let (transactional_id, c1) = match decode_string(body, 0) {
        Ok(p) => p,
        Err(e) => {
            return Err(e);
        },
    };
    if len - c1 < 14 {
        return Err(Error::IncompleteFrame);
    }
    proof {
        assert(t.skip(c1 as int).subrange(0, 8) =~= body@.subrange(c1 as int, c1 + 8));
        assert(t.skip(c1 as int).subrange(8, 10) =~= body@.subrange(c1 + 8, c1 + 10));
        assert(t.skip(c1 as int).subrange(10, 14) =~= body@.subrange(c1 + 10, c1 + 14));
        assert(t.skip(c1 as int).skip(14) =~= body@.skip(c1 + 14));
    }
    let producer_id: i64 = read_i64(body, c1);
    let producer_epoch: i16 = read_i16(body, c1 + 8);
    let count: i32 = read_i32(body, c1 + 10);
    if count < 0 {
        return Err(Error::MalformedInput);
    }
    let (topics, c2) = match decode_txn_topics(body, c1 + 14, count as usize) {
        Ok(p) => p,
        Err(e) => {
            return Err(e);
        },
    };
    if c1 + 14 + c2 != len {
        return Err(Error::MalformedInput);
    }
    Ok(
        Body::AddPartitionsToTxnRequest {
            transactional_id,
            producer_id,
            producer_epoch,
            topics,
        },
    )
}

/// One per-partition transactional outcome in wire order.
pub open spec fn txn_partition_results_cat(ps: Seq<TxnPartitionResult>) -> Seq<u8>
    decreases ps.len(),
{
    if ps.len() == 0 {
        Seq::empty()
    } else {
        i32_enc(ps[0].partition_index) + i16_enc(ps[0].error_code) + txn_partition_results_cat(
            ps.skip(1),
        )
    }
}

/// The per-topic transactional outcomes one after the other.
pub open spec fn txn_topic_results_cat(ts: Seq<TxnTopicResult>) -> Seq<u8>
    decreases ts.len(),
{
    if ts.len() == 0 {
        Seq::empty()
    } else {
        str16_enc(ts[0].name@) + i32_enc(ts[0].results@.len() as i32)
            + txn_partition_results_cat(ts[0].results@) + txn_topic_results_cat(ts.skip(1))
    }
}

/// The AddPartitionsToTxn response body: the throttle time, then the
/// count-prefixed per-topic outcomes.
pub open spec fn add_partitions_response_enc(
    throttle_time_ms: i32,
    results: Seq<TxnTopicResult>,
) -> Seq<u8> {
    i32_enc(throttle_time_ms) + i32_enc(results.len() as i32) + txn_topic_results_cat(results)
}

/// Every outcome's name and partition list fits its wire prefixes.
pub open spec fn txn_topic_results_fit(ts: Seq<TxnTopicResult>) -> bool {
    &&& ts.len() <= 0x7fff_ffff
    &&& (forall|i: int|
        0 <= i < ts.len() ==> encode_utf8((#[trigger] ts[i]).name@).len()
            <= crate::frame::MAX_LEGACY_STR && ts[i].results@.len() <= 0x7fff_ffff)
}

proof fn lemma_txn_partition_results_cat_concat(a: Seq<TxnPartitionResult>, b: Seq<
    TxnPartitionResult,
>)
    ensures
        txn_partition_results_cat(a + b) == txn_partition_results_cat(a)
            + txn_partition_results_cat(b),
    decreases a.len(),
{
    if a.len() == 0 {
        assert(a + b =~= b);
        assert(txn_partition_results_cat(a) + txn_partition_results_cat(b)
            =~= txn_partition_results_cat(b));
    } else {
        assert((a + b).skip(1) =~= a.skip(1) + b);
        lemma_txn_partition_results_cat_concat(a.skip(1), b);
        assert(txn_partition_results_cat(a + b) =~= txn_partition_results_cat(a)
            + txn_partition_results_cat(b));
    }
}

proof fn lemma_txn_topic_results_cat_concat(a: Seq<TxnTopicResult>, b: Seq<TxnTopicResult>)
    ensures
        txn_topic_results_cat(a + b) == txn_topic_results_cat(a) + txn_topic_results_cat(b),
    decreases a.len(),
{
    if a.len() == 0 {
        assert(a + b =~= b);
        assert(txn_topic_results_cat(a) + txn_topic_results_cat(b) =~= txn_topic_results_cat(
            b,
        ));
    } else {
        assert((a + b).skip(1) =~= a.skip(1) + b);
        lemma_txn_topic_results_cat_concat(a.skip(1), b);
        assert(txn_topic_results_cat(a + b) =~= txn_topic_results_cat(a)
            + txn_topic_results_cat(b));
    }
}

/// Appends the per-partition outcomes of one topic.
#[verifier::rlimit(100)]
#[verifier::spinoff_prover]
fn encode_txn_partition_results(out: &mut Vec<u8>, ps: &Vec<TxnPartitionResult>)
    ensures
        final(out)@ == old(out)@ + txn_partition_results_cat(ps@),
{
    let ghost base: Seq<u8> = out@;
    let mut j: usize = 0;
    while j < ps.len()
        invariant
            j <= ps@.len(),
            out@ == base + txn_partition_results_cat(ps@.take(j as int)),
        decreases ps@.len() - j,
    {
        let ghost pre: Seq<TxnPartitionResult> = ps@.take(j as int);
        push_i32(out, ps[j].partition_index);
        push_i16(out, ps[j].error_code);
        proof {
            assert(ps@.take(j + 1) =~= pre + seq![ps@[j as int]]);
            lemma_txn_partition_results_cat_concat(pre, seq![ps@[j as int]]);
            assert(seq![ps@[j as int]].skip(1) =~= Seq::<TxnPartitionResult>::empty());
            assert(txn_partition_results_cat(Seq::<TxnPartitionResult>::empty()) =~= Seq::<
                u8,
            >::empty());
            assert(out@ =~= base + txn_partition_results_cat(ps@.take(j + 1)));
        }
        j = j + 1;
    }
    proof {
        assert(ps@.take(ps@.len() as int) =~= ps@);
    }
}

/// Whether every transactional outcome fits, checked.
pub fn txn_topic_results_fit_check(ts: &Vec<TxnTopicResult>) -> (r: bool)
    ensures
        r == txn_topic_results_fit(ts@),
{
    if ts.len() > 0x7fff_ffff {
        return false;
    }
    let mut i: usize = 0;
    while i < ts.len()
        invariant
            i <= ts@.len(),
            ts@.len() <= 0x7fff_ffff,
            forall|k: int|
                0 <= k < i ==> encode_utf8((#[trigger] ts@[k]).name@).len()
                    <= crate::frame::MAX_LEGACY_STR && ts@[k].results@.len() <= 0x7fff_ffff,
        decreases ts@.len() - i,
    {
        if ts[i].name.as_str().as_bytes().len() > crate::frame::MAX_LEGACY_STR {
            return false;
        }
        if ts[i].results.len() > 0x7fff_ffff {
            return false;
        }
        i = i + 1;
    }
    true
}

/// Appends an AddPartitionsToTxn response body.
#[verifier::rlimit(100)]
#[verifier::spinoff_prover]
pub fn encode_add_partitions_response(
    out: &mut Vec<u8>,
    throttle_time_ms: i32,
    results: &Vec<TxnTopicResult>,
)
    requires
        txn_topic_results_fit(results@),
    ensures
        final(out)@ == old(out)@ + add_partitions_response_enc(throttle_time_ms, results@),
{
    let ghost base: Seq<u8> = out@;
    push_i32(out, throttle_time_ms);
    push_i32(out, results.len() as i32);
    let ghost mid: Seq<u8> = out@;
    let mut i: usize = 0;
    while i < results.len()
        invariant
            i <= results@.len(),
            txn_topic_results_fit(results@),
            out@ == mid + txn_topic_results_cat(results@.take(i as int)),
        decreases results@.len() - i,
    {
        let ghost pre: Seq<TxnTopicResult> = results@.take(i as int);
        crate::frame::encode_string(out, &results[i].name);
        push_i32(out, results[i].results.len() as i32);
        encode_txn_partition_results(out, &results[i].results);
        proof {
            assert(results@.take(i + 1) =~= pre + seq![results@[i as int]]);
            lemma_txn_topic_results_cat_concat(pre, seq![results@[i as int]]);
            assert(seq![results@[i as int]].skip(1) =~= Seq::<TxnTopicResult>::empty());
            assert(txn_topic_results_cat(Seq::<TxnTopicResult>::empty()) =~= Seq::<u8>::empty());
            assert(out@ =~= mid + txn_topic_results_cat(results@.take(i + 1)));
        }
        i = i + 1;
    }
    proof {
        assert(results@.take(results@.len() as int) =~= results@);
        assert(final(out)@ =~= base + add_partitions_response_enc(throttle_time_ms, results@));
    }
}


// ===== ListOffsets, version 1 =====

/// The partitions of a ListOffsets topic: index and target timestamp.
pub open spec fn list_offsets_partitions_dec(s: Seq<u8>, count: nat) -> Option<
    (Seq<(i32, i64)>, nat),
>
    decreases count,
{
    if count == 0 {
        Some((Seq::empty(), 0))
    } else {
        if s.len() < 12 {
            None
        } else {
            let idx = i32_of_u32(be_dec(s.subrange(0, 4))) as i32;
            let ts = i64_of_u64(be_dec(s.subrange(4, 12))) as i64;
            match list_offsets_partitions_dec(s.skip(12), (count - 1) as nat) {
                None => None,
                Some(t) => Some((seq![(idx, ts)] + t.0, 12 + t.1)),
            }
        }
    }
}

/// Reads `count` ListOffsets partitions at `pos`.
#[verifier::rlimit(100)]
#[verifier::spinoff_prover]
pub fn decode_list_offsets_partitions(s: &[u8], pos: usize, count: usize) -> (r: Result<
    (Vec<ListOffsetsPartition>, usize),
    Error,
>)
    requires
        pos <= s@.len(),
    ensures
        r is Ok <==> list_offsets_partitions_dec(s@.skip(pos as int), count as nat) is Some,
        match r {
            Ok(p) => {
                &&& list_offsets_partitions_dec(s@.skip(pos as int), count as nat)
                    matches Some(t) && t.1 == p.1 && lop_views(p.0@) == t.0
                &&& pos + p.1 <= s@.len()
            },
            Err(e) => e == Error::IncompleteFrame,
        },
{
    let ghost u0: Seq<u8> = s@.skip(pos as int);
    let len: usize = s.len();
    let mut acc: Vec<ListOffsetsPartition> = Vec::new();
    let mut cur: usize = pos;
    let mut i: usize = 0;
    proof {
        assert(lop_views(acc@) =~= Seq::<(i32, i64)>::empty());
    }
    while i < count
        invariant
            pos <= cur <= len,
            len == s@.len(),
            i <= count,
            acc@.len() == i,
            u0 == s@.skip(pos as int),
            forall|k: int|
                0 <= k < i ==> ((#[trigger] acc@[k]).partition_index, acc@[k].timestamp)
                    == lop_views(acc@)[k],
            match list_offsets_partitions_dec(s@.skip(cur as int), (count - i) as nat) {
                Some(tl) => list_offsets_partitions_dec(u0, count as nat) matches Some(whole)
                    && whole.1 == ((cur - pos) + tl.1) as nat && whole.0 == lop_views(acc@)
                    + tl.0,
                None => list_offsets_partitions_dec(u0, count as nat) is None,
            },
        decreases count - i,
    {
        let ghost ucur: Seq<u8> = s@.skip(cur as int);
        let ghost acc_pre: Vec<ListOffsetsPartition> = acc;
        if len - cur < 12 {
            proof {
                assert(list_offsets_partitions_dec(ucur, (count - i) as nat) is None);
            }
            return Err(Error::IncompleteFrame);
        }
        proof {
            assert(ucur.subrange(0, 4) =~= s@.subrange(cur as int, cur + 4));
            assert(ucur.subrange(4, 12) =~= s@.subrange(cur + 4, cur + 12));
            assert(ucur.skip(12) =~= s@.skip(cur + 12));
        }
        let partition_index: i32 = read_i32(s, cur);
        let timestamp: i64 = read_i64(s, cur + 4);
        proof {
            match list_offsets_partitions_dec(s@.skip(cur + 12), (count - i - 1) as nat) {
                Some(tl) => {
                    assert(lop_views(acc@) + (seq![(partition_index, timestamp)] + tl.0)
                        =~= (lop_views(acc@) + seq![(partition_index, timestamp)]) + tl.0);
                },
                None => {},
            }
        }
        acc.push(ListOffsetsPartition { partition_index, timestamp });
        proof {
            assert(lop_views(acc@) =~= lop_views(acc_pre@) + seq![
                (acc@[acc@.len() - 1].partition_index, acc@[acc@.len() - 1].timestamp),
            ]);
        }
        cur = cur + 12;
        i = i + 1;
    }
    proof {
        assert(list_offsets_partitions_dec(s@.skip(cur as int), 0) == Some::<
            (Seq<(i32, i64)>, nat),
        >((Seq::empty(), 0)));
        assert(lop_views(acc@) + Seq::<(i32, i64)>::empty() =~= lop_views(acc@));
    }
    Ok((acc, cur - pos))
}

/// The index and timestamp images of decoded ListOffsets partitions.
pub open spec fn lop_views(v: Seq<ListOffsetsPartition>) -> Seq<(i32, i64)> {
    Seq::new(v.len(), |i: int| (v[i].partition_index, v[i].timestamp))
}

/// The topics of a ListOffsets request.
pub open spec fn list_offsets_topics_dec(s: Seq<u8>, count: nat) -> Option<
    (Seq<(Seq<u8>, Seq<(i32, i64)>)>, nat),
>
    decreases count,
{
    if count == 0 {
        Some((Seq::empty(), 0))
    } else {
        match nstr_dec(s) {
            None => None,
            Some(n) => match n.0 {
                None => None,
                Some(nb) => {
                    let r1 = s.skip(n.1 as int);
                    if r1.len() < 4 {
                        None
                    } else {
                        let c = i32_of_u32(be_dec(r1.subrange(0, 4)));
                        if c < 0 {
                            None
                        } else {
                            match list_offsets_partitions_dec(r1.skip(4), c as nat) {
                                None => None,
                                Some(ps) => match list_offsets_topics_dec(
                                    r1.skip(4).skip(ps.1 as int),
                                    (count - 1) as nat,
                                ) {
                                    None => None,
                                    Some(t2) => Some(
                                        (seq![(nb, ps.0)] + t2.0, n.1 + 4 + ps.1 + t2.1),
                                    ),
                                },
                            }
                        }
                    }
                },
            },
        }
    }
}

/// Every topic name in the run is a string.
pub open spec fn lo_topics_sval(ts: Seq<(Seq<u8>, Seq<(i32, i64)>)>) -> bool {
    forall|i: int| 0 <= i < ts.len() ==> valid_utf8((#[trigger] ts[i]).0)
}

/// The name and partition images of decoded ListOffsets topics.
pub open spec fn lo_topic_views(v: Seq<ListOffsetsTopic>) -> Seq<(Seq<u8>, Seq<(i32, i64)>)> {
    Seq::new(v.len(), |i: int| (encode_utf8(v[i].name@), lop_views(v[i].partitions@)))
}

/// Reads `count` ListOffsets topics at `pos`.
#[verifier::rlimit(100)]
#[verifier::spinoff_prover]
pub fn decode_list_offsets_topics(s: &[u8], pos: usize, count: usize) -> (r: Result<
    (Vec<ListOffsetsTopic>, usize),
    Error,
>)
    requires
        pos <= s@.len(),
    ensures
        r is Ok <==> (match list_offsets_topics_dec(s@.skip(pos as int), count as nat) {
            Some(t) => lo_topics_sval(t.0),
            None => false,
        }),
        match r {
            Ok(p) => {
                &&& list_offsets_topics_dec(s@.skip(pos as int), count as nat) matches Some(t)
                    && t.1 == p.1 && lo_topic_views(p.0@) == t.0
                &&& pos + p.1 <= s@.len()
            },
            Err(e) => e == Error::IncompleteFrame || e == Error::MalformedInput,
        },
{
    let ghost u0: Seq<u8> = s@.skip(pos as int);
    let len: usize = s.len();
    let mut acc: Vec<ListOffsetsTopic> = Vec::new();
    let mut cur: usize = pos;
    let mut i: usize = 0;
    proof {
        assert(lo_topic_views(acc@) =~= Seq::<(Seq<u8>, Seq<(i32, i64)>)>::empty());
    }
    while i < count
        invariant
            pos <= cur <= len,
            len == s@.len(),
            i <= count,
            acc@.len() == i,
            u0 == s@.skip(pos as int),
            match list_offsets_topics_dec(s@.skip(cur as int), (count - i) as nat) {
                Some(tl) => {
                    &&& list_offsets_topics_dec(u0, count as nat) matches Some(whole)
                        && whole.1 == ((cur - pos) + tl.1) as nat && whole.0 == lo_topic_views(
                        acc@,
                    ) + tl.0
                    &&& lo_topics_sval(lo_topic_views(acc@))
                },
                None => list_offsets_topics_dec(u0, count as nat) is None,
            },
        decreases count - i,
    {
        let ghost ucur: Seq<u8> = s@.skip(cur as int);
        let ghost acc_pre: Vec<ListOffsetsTopic> = acc;
        let (name, c1) = match decode_string(s, cur) {
            Ok(p) => p,
            Err(e) => {
                proof {
                    match list_offsets_topics_dec(ucur, (count - i) as nat) {
                        None => {
                            assert(list_offsets_topics_dec(u0, count as nat) is None);
                        },
                        Some(tl) => {
                            let whole = list_offsets_topics_dec(u0, count as nat)->Some_0;
                            assert(nstr_dec(ucur) matches Some(h) && h.0 matches Some(hb)
                                && tl.0[0].0 == hb && !valid_utf8(hb));
                            assert(whole.0[i as int] == tl.0[0]);
                            assert(!lo_topics_sval(whole.0));
                        },
                    }
                }
                return Err(e);
            },
        };
        proof {
            assert(ucur.skip(c1 as int) =~= s@.skip(cur + c1));
        }
        if len - (cur + c1) < 4 {
            proof {
                assert(list_offsets_topics_dec(ucur, (count - i) as nat) is None);
            }
            return Err(Error::IncompleteFrame);
        }
        proof {
            assert(s@.skip(cur + c1).subrange(0, 4) =~= s@.subrange(
                cur + c1,
                cur + c1 + 4,
            ));
            assert(s@.skip(cur + c1).skip(4) =~= s@.skip(cur + c1 + 4));
        }
        let c: i32 = read_i32(s, cur + c1);
        if c < 0 {
            proof {
                assert(list_offsets_topics_dec(ucur, (count - i) as nat) is None);
            }
            return Err(Error::MalformedInput);
        }
        let (partitions, c2) = match decode_list_offsets_partitions(
            s,
            cur + c1 + 4,
            c as usize,
        ) {
            Ok(p) => p,
            Err(e) => {
                proof {
                    assert(list_offsets_topics_dec(ucur, (count - i) as nat) is None);
                }
                return Err(e);
            },
        };
        proof {
            assert(s@.skip(cur + c1).skip(4).skip(c2 as int) =~= s@.skip(
                cur + c1 + 4 + c2,
            ));
            let tl_next = list_offsets_topics_dec(
                s@.skip(cur + c1 + 4 + c2),
                (count - i - 1) as nat,
            );
            match tl_next {
                Some(tl) => {
                    assert(lo_topic_views(acc@) + (seq![
                        (encode_utf8(name@), lop_views(partitions@)),
                    ] + tl.0) =~= (lo_topic_views(acc@) + seq![
                        (encode_utf8(name@), lop_views(partitions@)),
                    ]) + tl.0);
                },
                None => {},
            }
        }
        let ghost nv: Seq<char> = name@;
        let ghost pv: Seq<ListOffsetsPartition> = partitions@;
        acc.push(ListOffsetsTopic { name, partitions });
        proof {
            assert(lo_topic_views(acc@) =~= lo_topic_views(acc_pre@) + seq![
                (encode_utf8(nv), lop_views(pv)),
            ]);
        }
        cur = cur + c1 + 4 + c2;
        i = i + 1;
    }
    proof {
        assert(list_offsets_topics_dec(s@.skip(cur as int), 0) == Some::<
            (Seq<(Seq<u8>, Seq<(i32, i64)>)>, nat),
        >((Seq::empty(), 0)));
        assert(lo_topic_views(acc@) + Seq::<(Seq<u8>, Seq<(i32, i64)>)>::empty()
            =~= lo_topic_views(acc@));
    }
    Ok((acc, cur - pos))
}

/// The ListOffsets request body: replica id and the count-prefixed
/// topics, spanning the whole body.
pub open spec fn list_offsets_request_dec(s: Seq<u8>) -> Option<
    (i32, Seq<(Seq<u8>, Seq<(i32, i64)>)>),
> {
    if s.len() < 8 {
        None
    } else {
        let replica = i32_of_u32(be_dec(s.subrange(0, 4))) as i32;
        let c = i32_of_u32(be_dec(s.subrange(4, 8)));
        if c < 0 {
            None
        } else {
            match list_offsets_topics_dec(s.skip(8), c as nat) {
                None => None,
                Some(t) => if 8 + t.1 == s.len() {
                    Some((replica, t.0))
                } else {
                    None
                },
            }
        }
    }
}

/// Reads a ListOffsets request body.
#[verifier::rlimit(100)]
#[verifier::spinoff_prover]
pub fn decode_list_offsets_request(body: &[u8]) -> (r: Result<Body, Error>)
    ensures
        r is Ok <==> (match list_offsets_request_dec(body@) {
            Some(t) => lo_topics_sval(t.1),
            None => false,
        }),
        match r {
            Ok(b) => {
                &&& list_offsets_request_dec(body@) matches Some(t)
                &&& b matches Body::ListOffsetsRequest {
                    replica_id,
                    isolation_level: None,
                    topics: Some(topics),
                } && replica_id == t.0 && lo_topic_views(topics@) == t.1
            },
            Err(e) => e == Error::IncompleteFrame || e == Error::MalformedInput,
        },
{
    let len: usize = body.len();
    let ghost t: Seq<u8> = body@;
    if len < 8 {
        return Err(Error::IncompleteFrame);
    }
    proof {
        assert(t.subrange(0, 4) =~= body@.subrange(0, 4));
        assert(t.subrange(4, 8) =~= body@.subrange(4, 8));
        assert(t.skip(8) =~= body@.skip(8));
    }
    let replica_id: i32 = read_i32(body, 0);
    let count: i32 = read_i32(body, 4);
    if count < 0 {
        return Err(Error::MalformedInput);
    }
    let (topics, used) = match decode_list_offsets_topics(body, 8, count as usize) {
        Ok(p) => p,
        Err(e) => {
            return Err(e);
        },
    };
    if 8 + used != len {
        return Err(Error::MalformedInput);
    }
    Ok(Body::ListOffsetsRequest { replica_id, isolation_level: None, topics: Some(topics) })
}

/// The per-partition offset listings of one topic, in wire order; absent
/// timestamps and offsets read back as −1.
pub open spec fn lo_partition_results_cat(ps: Seq<ListOffsetsPartitionResponse>) -> Seq<u8>
    decreases ps.len(),
{
    if ps.len() == 0 {
        Seq::empty()
    } else {
        i32_enc(ps[0].partition_index) + i16_enc(ps[0].error_code) + i64_enc(
            (match ps[0].timestamp {
                Some(t) => t,
                None => -1i64,
            }),
        ) + i64_enc(
            (match ps[0].offset {
                Some(o) => o,
                None => -1i64,
            }),
        ) + lo_partition_results_cat(ps.skip(1))
    }
}

/// The per-topic offset listings one after the other.
pub open spec fn lo_topic_results_cat(ts: Seq<ListOffsetsTopicResponse>) -> Seq<u8>
    decreases ts.len(),
{
    if ts.len() == 0 {
        Seq::empty()
    } else {
        str16_enc(ts[0].name@) + i32_enc(ts[0].partitions@.len() as i32)
            + lo_partition_results_cat(ts[0].partitions@) + lo_topic_results_cat(ts.skip(1))
    }
}

/// The ListOffsets response body: the count-prefixed per-topic listings.
pub open spec fn list_offsets_response_body_enc(topics: Seq<ListOffsetsTopicResponse>) -> Seq<
    u8,
> {
    i32_enc(topics.len() as i32) + lo_topic_results_cat(topics)
}

/// Every listing's name and partition list fits its wire prefixes.
pub open spec fn lo_topic_results_fit(ts: Seq<ListOffsetsTopicResponse>) -> bool {
    &&& ts.len() <= 0x7fff_ffff
    &&& (forall|i: int|
        0 <= i < ts.len() ==> encode_utf8((#[trigger] ts[i]).name@).len()
            <= crate::frame::MAX_LEGACY_STR && ts[i].partitions@.len() <= 0x7fff_ffff)
}

proof fn lemma_lo_partition_results_cat_concat(a: Seq<ListOffsetsPartitionResponse>, b: Seq<
    ListOffsetsPartitionResponse,
>)
    ensures
        lo_partition_results_cat(a + b) == lo_partition_results_cat(a)
            + lo_partition_results_cat(b),
    decreases a.len(),
{
    if a.len() == 0 {
        assert(a + b =~= b);
        assert(lo_partition_results_cat(a) + lo_partition_results_cat(b)
            =~= lo_partition_results_cat(b));
    } else {
        assert((a + b).skip(1) =~= a.skip(1) + b);
        lemma_lo_partition_results_cat_concat(a.skip(1), b);
        assert(lo_partition_results_cat(a + b) =~= lo_partition_results_cat(a)
            + lo_partition_results_cat(b));
    }
}

proof fn lemma_lo_topic_results_cat_concat(a: Seq<ListOffsetsTopicResponse>, b: Seq<
    ListOffsetsTopicResponse,
>)
    ensures
        lo_topic_results_cat(a + b) == lo_topic_results_cat(a) + lo_topic_results_cat(b),
    decreases a.len(),
{
    if a.len() == 0 {
        assert(a + b =~= b);
        assert(lo_topic_results_cat(a) + lo_topic_results_cat(b) =~= lo_topic_results_cat(b));
    } else {
        assert((a + b).skip(1) =~= a.skip(1) + b);
        lemma_lo_topic_results_cat_concat(a.skip(1), b);
        assert(lo_topic_results_cat(a + b) =~= lo_topic_results_cat(a)
            + lo_topic_results_cat(b));
    }
}

/// Appends the per-partition listings of one topic.
#[verifier::rlimit(100)]
#[verifier::spinoff_prover]
fn encode_lo_partition_results(out: &mut Vec<u8>, ps: &Vec<ListOffsetsPartitionResponse>)
    ensures
        final(out)@ == old(out)@ + lo_partition_results_cat(ps@),
{
    let ghost base: Seq<u8> = out@;
    let mut j: usize = 0;
    while j < ps.len()
        invariant
            j <= ps@.len(),
            out@ == base + lo_partition_results_cat(ps@.take(j as int)),
        decreases ps@.len() - j,
    {
        let ghost pre: Seq<ListOffsetsPartitionResponse> = ps@.take(j as int);
        push_i32(out, ps[j].partition_index);
        push_i16(out, ps[j].error_code);
        let ts: i64 = match ps[j].timestamp {
            Some(t) => t,
            None => -1,
        };
        push_i64(out, ts);
        let off: i64 = match ps[j].offset {
            Some(o) => o,
            None => -1,
        };
        push_i64(out, off);
        proof {
            assert(ps@.take(j + 1) =~= pre + seq![ps@[j as int]]);
            lemma_lo_partition_results_cat_concat(pre, seq![ps@[j as int]]);
            assert(seq![ps@[j as int]].skip(1) =~= Seq::<ListOffsetsPartitionResponse>::empty());
            assert(lo_partition_results_cat(Seq::<ListOffsetsPartitionResponse>::empty())
                =~= Seq::<u8>::empty());
            assert(out@ =~= base + lo_partition_results_cat(ps@.take(j + 1)));
        }
        j = j + 1;
    }
    proof {
        assert(ps@.take(ps@.len() as int) =~= ps@);
    }
}

/// Whether every listing fits, checked.
pub fn lo_topic_results_fit_check(ts: &Vec<ListOffsetsTopicResponse>) -> (r: bool)
    ensures
        r == lo_topic_results_fit(ts@),
{
    if ts.len() > 0x7fff_ffff {
        return false;
    }
    let mut i: usize = 0;
    while i < ts.len()
        invariant
            i <= ts@.len(),
            ts@.len() <= 0x7fff_ffff,
            forall|k: int|
                0 <= k < i ==> encode_utf8((#[trigger] ts@[k]).name@).len()
                    <= crate::frame::MAX_LEGACY_STR && ts@[k].partitions@.len() <= 0x7fff_ffff,
        decreases ts@.len() - i,
    {
        if ts[i].name.as_str().as_bytes().len() > crate::frame::MAX_LEGACY_STR {
            return false;
        }
        if ts[i].partitions.len() > 0x7fff_ffff {
            return false;
        }
        i = i + 1;
    }
    true
}

/// Appends a ListOffsets response body.
#[verifier::rlimit(100)]
#[verifier::spinoff_prover]
pub fn encode_list_offsets_response(out: &mut Vec<u8>, topics: &Vec<ListOffsetsTopicResponse>)
    requires
        lo_topic_results_fit(topics@),
    ensures
        final(out)@ == old(out)@ + list_offsets_response_body_enc(topics@),
{
    let ghost base: Seq<u8> = out@;
    push_i32(out, topics.len() as i32);
    let ghost mid: Seq<u8> = out@;
    let mut i: usize = 0;
    while i < topics.len()
        invariant
            i <= topics@.len(),
            lo_topic_results_fit(topics@),
            out@ == mid + lo_topic_results_cat(topics@.take(i as int)),
        decreases topics@.len() - i,
    {
        let ghost pre: Seq<ListOffsetsTopicResponse> = topics@.take(i as int);
        crate::frame::encode_string(out, &topics[i].name);
        push_i32(out, topics[i].partitions.len() as i32);
        encode_lo_partition_results(out, &topics[i].partitions);
        proof {
            assert(topics@.take(i + 1) =~= pre + seq![topics@[i as int]]);
            lemma_lo_topic_results_cat_concat(pre, seq![topics@[i as int]]);
            assert(seq![topics@[i as int]].skip(1) =~= Seq::<ListOffsetsTopicResponse>::empty());
            assert(lo_topic_results_cat(Seq::<ListOffsetsTopicResponse>::empty()) =~= Seq::<
                u8,
            >::empty());
            assert(out@ =~= mid + lo_topic_results_cat(topics@.take(i + 1)));
        }
        i = i + 1;
    }
    proof {
        assert(topics@.take(topics@.len() as int) =~= topics@);
        assert(final(out)@ =~= base + list_offsets_response_body_enc(topics@));
    }
}

} // verus!
