//! The per-connection dispatch engine: the broker's configuration, the
//! storage and coordinator interfaces it delegates to, the routing of each
//! request body to its handler, and the strict in-order request/response
//! step the read loop runs.
//!
//! All socket work stays outside the library: the loop around these
//! functions reads a size prefix and a frame, hands the decoded values in,
//! and writes the returned frame back before reading the next request.

use vstd::prelude::*;

verus! {

use crate::body::Body;
use crate::body::ApiVersionRange;
use crate::body::BrokerNode;
use crate::body::ClusterDescription;
use crate::body::CoordinatorResult;
use crate::body::CreatableTopic;
use crate::body::CreatableTopicResult;
use crate::body::DeletableGroupResult;
use crate::body::DeletableTopicResult;
use crate::body::DeleteRecordsTopic;
use crate::body::DeleteRecordsTopicResult;
use crate::body::DeleteTopicState;
use crate::body::DescribeConfigsResource;
use crate::body::DescribeConfigsResult;
use crate::body::DescribedGroup;
use crate::body::FetchTopic;
use crate::body::FetchTopicResponse;
use crate::body::JoinGroupMember;
use crate::body::JoinGroupProtocol;
use crate::body::ListOffsetsTopic;
use crate::body::ListOffsetsTopicResponse;
use crate::body::ListedGroup;
use crate::body::MemberIdentity;
use crate::body::MemberResponse;
use crate::body::MetadataResult;
use crate::body::MetadataTopic;
use crate::body::MetadataTopicResponse;
use crate::body::ListOffsetsPartition;
use crate::body::ListOffsetsPartitionResponse;
use crate::body::OffsetCommitPartition;
use crate::body::OffsetCommitPartitionResponse;
use crate::body::PartitionProduceData;
use crate::body::PartitionProduceResponse;
use crate::body::DeleteRecordsPartition;
use crate::body::DeleteRecordsPartitionResult;
use crate::body::TxnPartitionResult;
use crate::body::OffsetCommitTopic;
use crate::body::OffsetCommitTopicResponse;
use crate::body::OffsetFetchGroup;
use crate::body::OffsetFetchGroupResult;
use crate::body::OffsetFetchTopic;
use crate::body::OffsetFetchTopicResponse;
use crate::body::ReassignmentTopic;
use crate::body::SyncGroupAssignment;
use crate::body::TopicProduceData;
use crate::body::TopicProduceResponse;
use crate::body::TxnOffsetCommitTopic;
use crate::body::TxnOffsetCommitTopicResponse;
use crate::body::TxnTopic;
use crate::body::TxnTopicResult;
use crate::body::api_key_of;
use crate::body::is_request;
use crate::body::is_response;
use crate::body::API_PRODUCE;
use crate::body::API_FETCH;
use crate::body::API_LIST_OFFSETS;
use crate::body::API_METADATA;
use crate::body::API_OFFSET_COMMIT;
use crate::body::API_OFFSET_FETCH;
use crate::body::API_FIND_COORDINATOR;
use crate::body::API_JOIN_GROUP;
use crate::body::API_HEARTBEAT;
use crate::body::API_LEAVE_GROUP;
use crate::body::API_SYNC_GROUP;
use crate::body::API_DESCRIBE_GROUPS;
use crate::body::API_LIST_GROUPS;
use crate::body::API_API_VERSIONS;
use crate::body::API_CREATE_TOPICS;
use crate::body::API_DELETE_TOPICS;
use crate::body::API_DELETE_RECORDS;
use crate::body::API_INIT_PRODUCER_ID;
use crate::body::API_ADD_PARTITIONS_TO_TXN;
use crate::body::API_ADD_OFFSETS_TO_TXN;
use crate::body::API_END_TXN;
use crate::body::API_TXN_OFFSET_COMMIT;
use crate::body::API_DESCRIBE_CONFIGS;
use crate::body::API_DELETE_GROUPS;
use crate::body::API_LIST_PARTITION_REASSIGNMENTS;
use crate::body::API_DESCRIBE_CLUSTER;
use crate::body::API_CONSUMER_GROUP_DESCRIBE;
use crate::body::API_GET_TELEMETRY_SUBSCRIPTIONS;
use crate::error::Error;
use crate::frame::client_id_str;
use crate::frame::decode_request_frame;
use crate::frame::encode_response_frame;
use crate::frame::request_frame_dec;
use crate::frame::request_header_dec;
use crate::frame::response_correlation_id;
use crate::frame::RequestHeader;
use crate::frame::TaggedField;
use crate::body::body_schema_known;
use crate::body::decode_request_body;
use crate::body::encode_response_body;
use crate::body::request_body_decodes;
use crate::body::request_header_flexible;
use crate::body::lemma_ranges_cat_len;
use crate::body::lemma_ranges_flex_cat_len;
use crate::varint::uvarint_enc;
use crate::wire::lemma_i16_roundtrip;
use crate::wire::lemma_i32_roundtrip;
use crate::wire::read_i16;
use crate::wire::i16_of_u16;
use crate::wire::be_dec;

// ===== results the delegates hand back =====

/// What `init_producer` allocates.
#[derive(Clone, Debug, PartialEq, Eq, Hash)]
pub struct ProducerIdResult {
    pub error: i16,
    pub id: i64,
    pub epoch: i16,
}

/// A fully-formed join outcome from the coordinator.
#[derive(Clone, Debug, PartialEq, Eq, Hash)]
pub struct JoinGroupResult {
    pub error_code: i16,
    pub generation_id: i32,
    pub protocol_type: Option<String>,
    pub protocol_name: Option<String>,
    pub leader: String,
    pub member_id: String,
    pub members: Option<Vec<JoinGroupMember>>,
}

/// A fully-formed sync outcome from the coordinator.
#[derive(Clone, Debug, PartialEq, Eq, Hash)]
pub struct SyncGroupResult {
    pub error_code: i16,
    pub protocol_type: Option<String>,
    pub protocol_name: Option<String>,
    pub assignment: Vec<u8>,
}

/// A fully-formed leave outcome from the coordinator.
#[derive(Clone, Debug, PartialEq, Eq, Hash)]
pub struct LeaveGroupResult {
    pub error_code: i16,
    pub members: Option<Vec<MemberResponse>>,
}

/// A fully-formed offset-fetch outcome from the coordinator.
#[derive(Clone, Debug, PartialEq, Eq, Hash)]
pub struct OffsetFetchResult {
    pub topics: Option<Vec<OffsetFetchTopicResponse>>,
    pub error_code: Option<i16>,
    pub groups: Option<Vec<OffsetFetchGroupResult>>,
}

/// An offset commit, as the coordinator takes it.
#[derive(Clone, Debug, PartialEq, Eq, Hash)]
pub struct OffsetCommit {
    pub group_id: String,
    pub generation_id_or_member_epoch: Option<i32>,
    pub member_id: Option<String>,
    pub group_instance_id: Option<String>,
    pub retention_time_ms: Option<i64>,
    pub topics: Option<Vec<OffsetCommitTopic>>,
}

// ===== the delegate interfaces =====

/// The pluggable storage backend. Implementations persist and serve the
/// log; each call returns a domain result or a typed error. Nothing here
/// is proved of an implementation: what the dispatcher guarantees holds
/// whatever these calls return.
pub trait Storage {
    fn register_broker(
        &mut self,
        broker_id: i32,
        cluster_id: &str,
        incarnation_id: u128,
        rack: Option<String>,
    ) -> Result<(), Error>;

    fn create_topics(&mut self, topics: Vec<CreatableTopic>, validate_only: bool) -> Result<
        Vec<CreatableTopicResult>,
        Error,
    >;

    fn delete_records(&mut self, topics: Vec<DeleteRecordsTopic>) -> Result<
        Vec<DeleteRecordsTopicResult>,
        Error,
    >;

    fn delete_topics(
        &mut self,
        topics: Option<Vec<DeleteTopicState>>,
        topic_names: Option<Vec<String>>,
    ) -> Result<Vec<DeletableTopicResult>, Error>;

    fn delete_groups(&mut self, group_ids: Option<Vec<String>>) -> Result<
        Vec<DeletableGroupResult>,
        Error,
    >;

    fn describe_groups(
        &mut self,
        group_ids: Option<Vec<String>>,
        include_authorized_operations: bool,
    ) -> Result<Vec<DescribedGroup>, Error>;

    fn describe_configs(
        &mut self,
        resources: Option<Vec<DescribeConfigsResource>>,
        include_synonyms: Option<bool>,
        include_documentation: Option<bool>,
    ) -> Result<Vec<DescribeConfigsResult>, Error>;

    fn brokers(&mut self) -> Result<ClusterDescription, Error>;

    fn list_groups(&mut self, states_filter: Option<Vec<String>>) -> Result<
        Vec<ListedGroup>,
        Error,
    >;

    fn list_offsets(
        &mut self,
        replica_id: i32,
        isolation_level: i8,
        topics: Option<Vec<ListOffsetsTopic>>,
    ) -> Result<Vec<ListOffsetsTopicResponse>, Error>;

    fn list_partition_reassignments(&mut self, topics: Option<Vec<ReassignmentTopic>>) -> Result<
        Vec<ReassignmentTopic>,
        Error,
    >;

    fn metadata(&mut self, topics: Option<Vec<MetadataTopic>>) -> Result<MetadataResult, Error>;

    fn produce(
        &mut self,
        transactional_id: Option<String>,
        topic_data: Option<Vec<TopicProduceData>>,
    ) -> Result<Vec<TopicProduceResponse>, Error>;

    fn fetch(
        &mut self,
        max_wait_ms: i32,
        min_bytes: i32,
        max_bytes: Option<i32>,
        isolation_level: i8,
        topics: Option<Vec<FetchTopic>>,
    ) -> Result<Vec<FetchTopicResponse>, Error>;

    fn init_producer(
        &mut self,
        transactional_id: Option<String>,
        transaction_timeout_ms: i32,
        producer_id: Option<i64>,
        producer_epoch: Option<i16>,
    ) -> Result<ProducerIdResult, Error>;

    fn txn_add_offsets(
        &mut self,
        transactional_id: &str,
        producer_id: i64,
        producer_epoch: i16,
        group_id: &str,
    ) -> Result<i16, Error>;

    fn txn_add_partitions(
        &mut self,
        transactional_id: String,
        producer_id: i64,
        producer_epoch: i16,
        topics: Vec<TxnTopic>,
    ) -> Result<Vec<TxnTopicResult>, Error>;

    fn txn_offset_commit(
        &mut self,
        transactional_id: String,
        group_id: String,
        producer_id: i64,
        producer_epoch: i16,
        generation_id: Option<i32>,
        member_id: Option<String>,
        group_instance_id: Option<String>,
        topics: Option<Vec<TxnOffsetCommitTopic>>,
    ) -> Result<Vec<TxnOffsetCommitTopicResponse>, Error>;

    fn txn_end(
        &mut self,
        transactional_id: &str,
        producer_id: i64,
        producer_epoch: i16,
        committed: bool,
    ) -> Result<i16, Error>;
}

/// The group coordinator: the rebalance state machine behind the group
/// APIs. It hands back fully-formed response payloads.
pub trait Coordinator {
    fn join(
        &mut self,
        client_id: Option<&str>,
        group_id: &str,
        session_timeout_ms: i32,
        rebalance_timeout_ms: Option<i32>,
        member_id: &str,
        group_instance_id: Option<String>,
        protocol_type: &str,
        protocols: Option<Vec<JoinGroupProtocol>>,
        reason: Option<String>,
    ) -> Result<JoinGroupResult, Error>;

    fn sync(
        &mut self,
        group_id: &str,
        generation_id: i32,
        member_id: &str,
        group_instance_id: Option<String>,
        protocol_type: Option<String>,
        protocol_name: Option<String>,
        assignments: Option<Vec<SyncGroupAssignment>>,
    ) -> Result<SyncGroupResult, Error>;

    fn heartbeat(
        &mut self,
        group_id: &str,
        generation_id: i32,
        member_id: &str,
        group_instance_id: Option<String>,
    ) -> Result<i16, Error>;

    fn leave(
        &mut self,
        group_id: &str,
        member_id: Option<String>,
        members: Option<Vec<MemberIdentity>>,
    ) -> Result<LeaveGroupResult, Error>;

    fn offset_commit(&mut self, detail: OffsetCommit) -> Result<
        Vec<OffsetCommitTopicResponse>,
        Error,
    >;

    fn offset_fetch(
        &mut self,
        group_id: Option<&str>,
        topics: Option<Vec<OffsetFetchTopic>>,
        groups: Option<Vec<OffsetFetchGroup>>,
        require_stable: Option<bool>,
    ) -> Result<OffsetFetchResult, Error>;
}

// ===== the version table =====

/// The `(api_key, min_version, max_version)` triples this broker
/// advertises through `ApiVersions`: exactly the windows whose body
/// schemas the registry serves (`lemma_advertised_iff_served`).
pub open spec fn supported_api_ranges() -> Seq<ApiVersionRange> {
    seq![
        (ApiVersionRange { api_key: API_HEARTBEAT, min_version: 0, max_version: 1 }),
        (ApiVersionRange { api_key: API_LEAVE_GROUP, min_version: 0, max_version: 1 }),
        (ApiVersionRange { api_key: API_API_VERSIONS, min_version: 0, max_version: 3 }),
        (ApiVersionRange { api_key: API_INIT_PRODUCER_ID, min_version: 0, max_version: 1 }),
        (ApiVersionRange { api_key: API_ADD_OFFSETS_TO_TXN, min_version: 0, max_version: 1 }),
        (ApiVersionRange { api_key: API_END_TXN, min_version: 0, max_version: 1 }),
        (ApiVersionRange { api_key: API_FIND_COORDINATOR, min_version: 0, max_version: 1 }),
        (ApiVersionRange { api_key: API_LIST_GROUPS, min_version: 0, max_version: 1 }),
        (ApiVersionRange { api_key: API_DELETE_GROUPS, min_version: 0, max_version: 1 }),
        (ApiVersionRange { api_key: API_SYNC_GROUP, min_version: 0, max_version: 1 }),
        (ApiVersionRange { api_key: API_DELETE_TOPICS, min_version: 0, max_version: 1 }),
        (ApiVersionRange { api_key: API_ADD_PARTITIONS_TO_TXN, min_version: 0, max_version: 1 }),
        (ApiVersionRange { api_key: API_LIST_OFFSETS, min_version: 1, max_version: 1 }),
    ]
}

/// The version table, as `ApiVersions` returns it.
pub fn supported_api_versions() -> (r: Vec<ApiVersionRange>)
    ensures
        r.deep_view() == supported_api_ranges(),
{
    let mut v: Vec<ApiVersionRange> = Vec::new();
    v.push(ApiVersionRange { api_key: API_HEARTBEAT, min_version: 0, max_version: 1 });
    v.push(ApiVersionRange { api_key: API_LEAVE_GROUP, min_version: 0, max_version: 1 });
    v.push(ApiVersionRange { api_key: API_API_VERSIONS, min_version: 0, max_version: 3 });
    v.push(ApiVersionRange { api_key: API_INIT_PRODUCER_ID, min_version: 0, max_version: 1 });
    v.push(ApiVersionRange { api_key: API_ADD_OFFSETS_TO_TXN, min_version: 0, max_version: 1 });
    v.push(ApiVersionRange { api_key: API_END_TXN, min_version: 0, max_version: 1 });
    v.push(ApiVersionRange { api_key: API_FIND_COORDINATOR, min_version: 0, max_version: 1 });
    v.push(ApiVersionRange { api_key: API_LIST_GROUPS, min_version: 0, max_version: 1 });
    v.push(ApiVersionRange { api_key: API_DELETE_GROUPS, min_version: 0, max_version: 1 });
    v.push(ApiVersionRange { api_key: API_SYNC_GROUP, min_version: 0, max_version: 1 });
    v.push(ApiVersionRange { api_key: API_DELETE_TOPICS, min_version: 0, max_version: 1 });
    v.push(
        ApiVersionRange { api_key: API_ADD_PARTITIONS_TO_TXN, min_version: 0, max_version: 1 },
    );
    v.push(ApiVersionRange { api_key: API_LIST_OFFSETS, min_version: 1, max_version: 1 });
    proof {
        assert(v.deep_view() =~= supported_api_ranges());
    }
    v
}

/// The broker advertises exactly what it serves: a version of an API is
/// in the advertised table iff the body schema registry decodes and
/// encodes it.
pub proof fn lemma_advertised_iff_served(api_key: i16, api_version: i16)
    ensures
        body_schema_known(api_key, api_version) <==> (exists|i: int|
            0 <= i < supported_api_ranges().len() && (#[trigger] supported_api_ranges()[i]).api_key
                == api_key && supported_api_ranges()[i].min_version <= api_version && api_version
                <= supported_api_ranges()[i].max_version),
{
    if body_schema_known(api_key, api_version) {
        if api_key == API_HEARTBEAT {
            assert(supported_api_ranges()[0].api_key == api_key && supported_api_ranges()[0].min_version
                <= api_version <= supported_api_ranges()[0].max_version);
        } else if api_key == API_LEAVE_GROUP {
            assert(supported_api_ranges()[1].api_key == api_key && supported_api_ranges()[1].min_version
                <= api_version <= supported_api_ranges()[1].max_version);
        } else if api_key == API_API_VERSIONS {
            assert(supported_api_ranges()[2].api_key == api_key && supported_api_ranges()[2].min_version
                <= api_version <= supported_api_ranges()[2].max_version);
        } else if api_key == API_INIT_PRODUCER_ID {
            assert(supported_api_ranges()[3].api_key == api_key && supported_api_ranges()[3].min_version
                <= api_version <= supported_api_ranges()[3].max_version);
        } else if api_key == API_ADD_OFFSETS_TO_TXN {
            assert(supported_api_ranges()[4].api_key == api_key && supported_api_ranges()[4].min_version
                <= api_version <= supported_api_ranges()[4].max_version);
        } else if api_key == API_END_TXN {
            assert(supported_api_ranges()[5].api_key == api_key && supported_api_ranges()[5].min_version
                <= api_version <= supported_api_ranges()[5].max_version);
        } else if api_key == API_FIND_COORDINATOR {
            assert(supported_api_ranges()[6].api_key == api_key && supported_api_ranges()[6].min_version
                <= api_version <= supported_api_ranges()[6].max_version);
        } else if api_key == API_LIST_GROUPS {
            assert(supported_api_ranges()[7].api_key == api_key && supported_api_ranges()[7].min_version
                <= api_version <= supported_api_ranges()[7].max_version);
        } else if api_key == API_DELETE_GROUPS {
            assert(supported_api_ranges()[8].api_key == api_key && supported_api_ranges()[8].min_version
                <= api_version <= supported_api_ranges()[8].max_version);
        } else if api_key == API_SYNC_GROUP {
            assert(supported_api_ranges()[9].api_key == api_key && supported_api_ranges()[9].min_version
                <= api_version <= supported_api_ranges()[9].max_version);
        } else if api_key == API_DELETE_TOPICS {
            assert(supported_api_ranges()[10].api_key == api_key && supported_api_ranges()[10].min_version
                <= api_version <= supported_api_ranges()[10].max_version);
        } else if api_key == API_ADD_PARTITIONS_TO_TXN {
            assert(supported_api_ranges()[11].api_key == api_key && supported_api_ranges()[11].min_version
                <= api_version <= supported_api_ranges()[11].max_version);
        } else {
            assert(supported_api_ranges()[12].api_key == api_key && supported_api_ranges()[12].min_version
                <= api_version <= supported_api_ranges()[12].max_version);
        }
    }
    if exists|i: int|
        0 <= i < supported_api_ranges().len() && (#[trigger] supported_api_ranges()[i]).api_key
            == api_key && supported_api_ranges()[i].min_version <= api_version && api_version
            <= supported_api_ranges()[i].max_version {
        let i = choose|i: int|
            0 <= i < supported_api_ranges().len() && (#[trigger] supported_api_ranges()[i]).api_key
                == api_key && supported_api_ranges()[i].min_version <= api_version && api_version
                <= supported_api_ranges()[i].max_version;
        if i == 0 {
            assert(body_schema_known(api_key, api_version));
        } else if i == 1 {
            assert(body_schema_known(api_key, api_version));
        } else if i == 2 {
            assert(body_schema_known(api_key, api_version));
        } else if i == 3 {
            assert(body_schema_known(api_key, api_version));
        } else if i == 4 {
            assert(body_schema_known(api_key, api_version));
        } else if i == 5 {
            assert(body_schema_known(api_key, api_version));
        } else if i == 6 {
            assert(body_schema_known(api_key, api_version));
        } else if i == 7 {
            assert(body_schema_known(api_key, api_version));
        } else if i == 8 {
            assert(body_schema_known(api_key, api_version));
        } else if i == 9 {
            assert(body_schema_known(api_key, api_version));
        } else if i == 10 {
            assert(body_schema_known(api_key, api_version));
        } else if i == 11 {
            assert(body_schema_known(api_key, api_version));
        } else {
            assert(body_schema_known(api_key, api_version));
        }
    }
}


// ===== response construction =====

/// The code a delegate failure is reported as inside a well-formed
/// response, when the broker cannot attribute it more precisely.
pub const UNKNOWN_SERVER_ERROR: i16 = -1;

/// An isolation level the protocol knows: absent, read-uncommitted (0) or
/// read-committed (1).
pub open spec fn valid_isolation(level: Option<i8>) -> bool {
    level == Option::<i8>::None || level == Some(0i8) || level == Some(1i8)
}

/// The requests the dispatcher itself refuses before any delegate call:
/// a produce whose acks lie outside {-1, 0, 1}, or a fetch or offset
/// listing whose isolation level the protocol does not know. Everything
/// else is answered with a well-formed response, whatever the delegates
/// return.
pub open spec fn request_malformed(b: &Body) -> bool {
    match b {
        Body::ProduceRequest { acks, .. } => !(*acks == -1 || *acks == 0 || *acks == 1),
        Body::FetchRequest { isolation_level, .. } => !valid_isolation(*isolation_level),
        Body::ListOffsetsRequest { isolation_level, .. } => !valid_isolation(
            *isolation_level,
        ),
        _ => false,
    }
}

/// The isolation level as the storage interface takes it.
fn isolation_level_value(level: Option<i8>) -> (r: Result<i8, Error>)
    ensures
        r is Ok <==> valid_isolation(level),
        r matches Ok(v) ==> v == (match level {
            None => 0i8,
            Some(l) => l,
        }),
        r is Err ==> r == Err::<i8, Error>(Error::MalformedInput),
{
    match level {
        None => Ok(0),
        Some(0) => Ok(0),
        Some(1) => Ok(1),
        Some(_) => Err(Error::MalformedInput),
    }
}

/// The AddOffsetsToTxn response for a delegate outcome.
pub fn add_offsets_to_txn_response(outcome: Result<i16, Error>) -> (r: Body)
    ensures
        r == (match outcome {
            Ok(error_code) => Body::AddOffsetsToTxnResponse { throttle_time_ms: 0, error_code },
            Err(_) => Body::AddOffsetsToTxnResponse {
                throttle_time_ms: 0,
                error_code: UNKNOWN_SERVER_ERROR,
            },
        }),
{
    match outcome {
        Ok(error_code) => Body::AddOffsetsToTxnResponse { throttle_time_ms: 0, error_code },
        Err(_) => Body::AddOffsetsToTxnResponse {
            throttle_time_ms: 0,
            error_code: UNKNOWN_SERVER_ERROR,
        },
    }
}

/// The EndTxn response for a delegate outcome.
pub fn end_txn_response(outcome: Result<i16, Error>) -> (r: Body)
    ensures
        r == (match outcome {
            Ok(error_code) => Body::EndTxnResponse { throttle_time_ms: 0, error_code },
            Err(_) => Body::EndTxnResponse {
                throttle_time_ms: 0,
                error_code: UNKNOWN_SERVER_ERROR,
            },
        }),
{
    match outcome {
        Ok(error_code) => Body::EndTxnResponse { throttle_time_ms: 0, error_code },
        Err(_) => Body::EndTxnResponse {
            throttle_time_ms: 0,
            error_code: UNKNOWN_SERVER_ERROR,
        },
    }
}

/// The Heartbeat response for a delegate outcome.
pub fn heartbeat_response(outcome: Result<i16, Error>) -> (r: Body)
    ensures
        r == (match outcome {
            Ok(error_code) => Body::HeartbeatResponse { throttle_time_ms: Some(0), error_code },
            Err(_) => Body::HeartbeatResponse {
                throttle_time_ms: Some(0),
                error_code: UNKNOWN_SERVER_ERROR,
            },
        }),
{
    match outcome {
        Ok(error_code) => Body::HeartbeatResponse { throttle_time_ms: Some(0), error_code },
        Err(_) => Body::HeartbeatResponse {
            throttle_time_ms: Some(0),
            error_code: UNKNOWN_SERVER_ERROR,
        },
    }
}

/// The InitProducerId response for a delegate outcome.
pub fn init_producer_id_response(outcome: Result<ProducerIdResult, Error>) -> (r: Body)
    ensures
        r == (match outcome {
            Ok(o) => Body::InitProducerIdResponse {
                throttle_time_ms: 0,
                error_code: o.error,
                producer_id: o.id,
                producer_epoch: o.epoch,
            },
            Err(_) => Body::InitProducerIdResponse {
                throttle_time_ms: 0,
                error_code: UNKNOWN_SERVER_ERROR,
                producer_id: -1i64,
                producer_epoch: -1i16,
            },
        }),
{
    match outcome {
        Ok(o) => Body::InitProducerIdResponse {
            throttle_time_ms: 0,
            error_code: o.error,
            producer_id: o.id,
            producer_epoch: o.epoch,
        },
        Err(_) => Body::InitProducerIdResponse {
            throttle_time_ms: 0,
            error_code: UNKNOWN_SERVER_ERROR,
            producer_id: -1,
            producer_epoch: -1,
        },
    }
}

/// The JoinGroup response for a delegate outcome.
pub fn join_group_response(outcome: Result<JoinGroupResult, Error>) -> (r: Body)
    ensures
        (match outcome {
            Ok(o) => r == (Body::JoinGroupResponse {
                throttle_time_ms: Some(0),
                error_code: o.error_code,
                generation_id: o.generation_id,
                protocol_type: o.protocol_type,
                protocol_name: o.protocol_name,
                leader: o.leader,
                member_id: o.member_id,
                members: o.members,
            }),
            Err(_) => r matches Body::JoinGroupResponse {
                throttle_time_ms: Some(0i32),
                error_code: UNKNOWN_SERVER_ERROR,
                generation_id: -1,
                protocol_type: None,
                protocol_name: None,
                leader,
                member_id,
                members: None,
            } && leader@ == Seq::<char>::empty() && member_id@ == Seq::<char>::empty(),
        }),
{
    match outcome {
        Ok(o) => Body::JoinGroupResponse {
            throttle_time_ms: Some(0),
            error_code: o.error_code,
            generation_id: o.generation_id,
            protocol_type: o.protocol_type,
            protocol_name: o.protocol_name,
            leader: o.leader,
            member_id: o.member_id,
            members: o.members,
        },
        Err(_) => Body::JoinGroupResponse {
            throttle_time_ms: Some(0),
            error_code: UNKNOWN_SERVER_ERROR,
            generation_id: -1,
            protocol_type: None,
            protocol_name: None,
            leader: String::new(),
            member_id: String::new(),
            members: None,
        },
    }
}

/// The LeaveGroup response for a delegate outcome.
pub fn leave_group_response(outcome: Result<LeaveGroupResult, Error>) -> (r: Body)
    ensures
        r == (match outcome {
            Ok(o) => Body::LeaveGroupResponse {
                throttle_time_ms: Some(0),
                error_code: o.error_code,
                members: o.members,
            },
            Err(_) => Body::LeaveGroupResponse {
                throttle_time_ms: Some(0),
                error_code: UNKNOWN_SERVER_ERROR,
                members: None,
            },
        }),
{
    match outcome {
        Ok(o) => Body::LeaveGroupResponse {
            throttle_time_ms: Some(0),
            error_code: o.error_code,
            members: o.members,
        },
        Err(_) => Body::LeaveGroupResponse {
            throttle_time_ms: Some(0),
            error_code: UNKNOWN_SERVER_ERROR,
            members: None,
        },
    }
}

/// The SyncGroup response for a delegate outcome.
pub fn sync_group_response(outcome: Result<SyncGroupResult, Error>) -> (r: Body)
    ensures
        (match outcome {
            Ok(o) => r == (Body::SyncGroupResponse {
                throttle_time_ms: Some(0),
                error_code: o.error_code,
                protocol_type: o.protocol_type,
                protocol_name: o.protocol_name,
                assignment: o.assignment,
            }),
            Err(_) => r matches Body::SyncGroupResponse {
                throttle_time_ms: Some(0i32),
                error_code: UNKNOWN_SERVER_ERROR,
                protocol_type: None,
                protocol_name: None,
                assignment,
            } && assignment@ == Seq::<u8>::empty(),
        }),
{
    match outcome {
        Ok(o) => Body::SyncGroupResponse {
            throttle_time_ms: Some(0),
            error_code: o.error_code,
            protocol_type: o.protocol_type,
            protocol_name: o.protocol_name,
            assignment: o.assignment,
        },
        Err(_) => Body::SyncGroupResponse {
            throttle_time_ms: Some(0),
            error_code: UNKNOWN_SERVER_ERROR,
            protocol_type: None,
            protocol_name: None,
            assignment: Vec::new(),
        },
    }
}

/// The ListGroups response for a delegate outcome.
pub fn list_groups_response(outcome: Result<Vec<ListedGroup>, Error>) -> (r: Body)
    ensures
        (match outcome {
            Ok(groups) => r == (Body::ListGroupsResponse {
                throttle_time_ms: Some(0),
                error_code: 0,
                groups: Some(groups),
            }),
            Err(_) => r matches Body::ListGroupsResponse {
                throttle_time_ms: Some(0i32),
                error_code: UNKNOWN_SERVER_ERROR,
                groups: Some(gs),
            } && gs@.len() == 0,
        }),
{
    match outcome {
        Ok(groups) => Body::ListGroupsResponse {
            throttle_time_ms: Some(0),
            error_code: 0,
            groups: Some(groups),
        },
        Err(_) => Body::ListGroupsResponse {
            throttle_time_ms: Some(0),
            error_code: UNKNOWN_SERVER_ERROR,
            groups: Some(Vec::new()),
        },
    }
}

/// The DescribeCluster response for a delegate outcome: the cluster id is
/// the broker's own either way.
pub fn describe_cluster_response(cluster_id: String, outcome: Result<ClusterDescription, Error>)
    -> (r: Body)
    ensures
        (match outcome {
            Ok(d) => r == (Body::DescribeClusterResponse {
                throttle_time_ms: 0,
                error_code: 0,
                cluster_id,
                controller_id: d.controller_id,
                brokers: d.brokers,
            }),
            Err(_) => r matches Body::DescribeClusterResponse {
                throttle_time_ms: 0i32,
                error_code: UNKNOWN_SERVER_ERROR,
                cluster_id: c,
                controller_id: -1,
                brokers,
            } && c == cluster_id && brokers@.len() == 0,
        }),
{
    match outcome {
        Ok(d) => Body::DescribeClusterResponse {
            throttle_time_ms: 0,
            error_code: 0,
            cluster_id,
            controller_id: d.controller_id,
            brokers: d.brokers,
        },
        Err(_) => Body::DescribeClusterResponse {
            throttle_time_ms: 0,
            error_code: UNKNOWN_SERVER_ERROR,
            cluster_id,
            controller_id: -1,
            brokers: Vec::new(),
        },
    }
}

/// The ListPartitionReassignments response for a delegate outcome.
pub fn list_partition_reassignments_response(outcome: Result<Vec<ReassignmentTopic>, Error>)
    -> (r: Body)
    ensures
        r == (match outcome {
            Ok(topics) => Body::ListPartitionReassignmentsResponse {
                throttle_time_ms: 0,
                error_code: 0,
                topics: Some(topics),
            },
            Err(_) => Body::ListPartitionReassignmentsResponse {
                throttle_time_ms: 0,
                error_code: UNKNOWN_SERVER_ERROR,
                topics: None,
            },
        }),
{
    match outcome {
        Ok(topics) => Body::ListPartitionReassignmentsResponse {
            throttle_time_ms: 0,
            error_code: 0,
            topics: Some(topics),
        },
        Err(_) => Body::ListPartitionReassignmentsResponse {
            throttle_time_ms: 0,
            error_code: UNKNOWN_SERVER_ERROR,
            topics: None,
        },
    }
}

/// The OffsetFetch response for a delegate outcome.
pub fn offset_fetch_response(outcome: Result<OffsetFetchResult, Error>) -> (r: Body)
    ensures
        r == (match outcome {
            Ok(o) => Body::OffsetFetchResponse {
                throttle_time_ms: Some(0),
                topics: o.topics,
                error_code: o.error_code,
                groups: o.groups,
            },
            Err(_) => Body::OffsetFetchResponse {
                throttle_time_ms: Some(0),
                topics: None,
                error_code: Some(UNKNOWN_SERVER_ERROR),
                groups: None,
            },
        }),
{
    match outcome {
        Ok(o) => Body::OffsetFetchResponse {
            throttle_time_ms: Some(0),
            topics: o.topics,
            error_code: o.error_code,
            groups: o.groups,
        },
        Err(_) => Body::OffsetFetchResponse {
            throttle_time_ms: Some(0),
            topics: None,
            error_code: Some(UNKNOWN_SERVER_ERROR),
            groups: None,
        },
    }
}

/// The Fetch response for a delegate outcome: the session id is always 0,
/// this broker keeps no fetch sessions.
pub fn fetch_response(outcome: Result<Vec<FetchTopicResponse>, Error>) -> (r: Body)
    ensures
        (match outcome {
            Ok(responses) => r == (Body::FetchResponse {
                throttle_time_ms: Some(0),
                error_code: Some(0),
                session_id: Some(0),
                responses: Some(responses),
            }),
            Err(_) => r matches Body::FetchResponse {
                throttle_time_ms: Some(0i32),
                error_code: Some(UNKNOWN_SERVER_ERROR),
                session_id: Some(0i32),
                responses: Some(rs),
            } && rs@.len() == 0,
        }),
{
    match outcome {
        Ok(responses) => Body::FetchResponse {
            throttle_time_ms: Some(0),
            error_code: Some(0),
            session_id: Some(0),
            responses: Some(responses),
        },
        Err(_) => Body::FetchResponse {
            throttle_time_ms: Some(0),
            error_code: Some(UNKNOWN_SERVER_ERROR),
            session_id: Some(0),
            responses: Some(Vec::new()),
        },
    }
}

// ===== error slots for the APIs that carry codes per result slot =====

/// One create-topic outcome per requested topic, all failed.
pub fn create_topics_error_slots(topics: &Option<Vec<CreatableTopic>>) -> (r: Vec<
    CreatableTopicResult,
>)
    ensures
        r@.len() == (match topics {
            Some(ts) => ts@.len(),
            None => 0nat,
        }),
        forall|k: int|
            0 <= k < r@.len() ==> (#[trigger] r@[k]).name@ == topics->Some_0@[k].name@
                && r@[k].error_code == UNKNOWN_SERVER_ERROR,
{
    let mut r: Vec<CreatableTopicResult> = Vec::new();
    let ts: &Vec<CreatableTopic> = match topics {
        Some(ts) => ts,
        None => {
            return r;
        },
    };
    let mut i: usize = 0;
    while i < ts.len()
        invariant
            i <= ts@.len(),
            r@.len() == i,
            forall|k: int|
                0 <= k < i ==> (#[trigger] r@[k]).name@ == ts@[k].name@ && r@[k].error_code
                    == UNKNOWN_SERVER_ERROR,
        decreases ts@.len() - i,
    {
        r.push(CreatableTopicResult { name: ts[i].name.clone(), error_code: UNKNOWN_SERVER_ERROR });
        i = i + 1;
    }
    r
}

/// One delete-group outcome per requested group, all failed.
pub fn delete_groups_error_slots(groups: &Option<Vec<String>>) -> (r: Vec<DeletableGroupResult>)
    ensures
        r@.len() == (match groups {
            Some(gs) => gs@.len(),
            None => 0nat,
        }),
        forall|k: int|
            0 <= k < r@.len() ==> (#[trigger] r@[k]).group_id@ == groups->Some_0@[k]@
                && r@[k].error_code == UNKNOWN_SERVER_ERROR,
{
    let mut r: Vec<DeletableGroupResult> = Vec::new();
    let gs: &Vec<String> = match groups {
        Some(gs) => gs,
        None => {
            return r;
        },
    };
    let mut i: usize = 0;
    while i < gs.len()
        invariant
            i <= gs@.len(),
            r@.len() == i,
            forall|k: int|
                0 <= k < i ==> (#[trigger] r@[k]).group_id@ == gs@[k]@ && r@[k].error_code
                    == UNKNOWN_SERVER_ERROR,
        decreases gs@.len() - i,
    {
        r.push(DeletableGroupResult { group_id: gs[i].clone(), error_code: UNKNOWN_SERVER_ERROR });
        i = i + 1;
    }
    r
}

/// One described group per requested group, all failed.
pub fn describe_groups_error_slots(groups: &Option<Vec<String>>) -> (r: Vec<DescribedGroup>)
    ensures
        r@.len() == (match groups {
            Some(gs) => gs@.len(),
            None => 0nat,
        }),
        forall|k: int|
            0 <= k < r@.len() ==> (#[trigger] r@[k]).group_id@ == groups->Some_0@[k]@
                && r@[k].group_state@ == Seq::<char>::empty() && r@[k].error_code
                == UNKNOWN_SERVER_ERROR,
{
    let mut r: Vec<DescribedGroup> = Vec::new();
    let gs: &Vec<String> = match groups {
        Some(gs) => gs,
        None => {
            return r;
        },
    };
    let mut i: usize = 0;
    while i < gs.len()
        invariant
            i <= gs@.len(),
            r@.len() == i,
            forall|k: int|
                0 <= k < i ==> (#[trigger] r@[k]).group_id@ == gs@[k]@ && r@[k].group_state@
                    == Seq::<char>::empty() && r@[k].error_code == UNKNOWN_SERVER_ERROR,
        decreases gs@.len() - i,
    {
        r.push(
            DescribedGroup {
                group_id: gs[i].clone(),
                group_state: String::new(),
                error_code: UNKNOWN_SERVER_ERROR,
            },
        );
        i = i + 1;
    }
    r
}

/// One delete-topic outcome per topic named by id-state or by name, all
/// failed: the id-state entries first, then the plain names.
pub fn delete_topics_error_slots(
    topics: &Option<Vec<DeleteTopicState>>,
    topic_names: &Option<Vec<String>>,
) -> (r: Vec<DeletableTopicResult>)
    ensures
        r@.len() == (match topics {
            Some(ts) => ts@.len(),
            None => 0nat,
        }) + (match topic_names {
            Some(ns) => ns@.len(),
            None => 0nat,
        }),
        forall|k: int|
            0 <= k < r@.len() ==> (#[trigger] r@[k]).error_code == UNKNOWN_SERVER_ERROR,
{
    let mut r: Vec<DeletableTopicResult> = Vec::new();
    if let Some(ts) = topics {
        let mut i: usize = 0;
        while i < ts.len()
            invariant
                i <= ts@.len(),
                r@.len() == i,
                forall|k: int|
                    0 <= k < i ==> (#[trigger] r@[k]).error_code == UNKNOWN_SERVER_ERROR,
            decreases ts@.len() - i,
        {
            let name: Option<String> = match &ts[i].name {
                Some(n) => Some(n.clone()),
                None => None,
            };
            r.push(DeletableTopicResult { name, error_code: UNKNOWN_SERVER_ERROR });
            i = i + 1;
        }
    }
    let ghost mid: nat = r@.len();
    if let Some(ns) = topic_names {
        let mut i: usize = 0;
        while i < ns.len()
            invariant
                i <= ns@.len(),
                r@.len() == mid + i,
                forall|k: int|
                    0 <= k < r@.len() ==> (#[trigger] r@[k]).error_code == UNKNOWN_SERVER_ERROR,
            decreases ns@.len() - i,
        {
            r.push(
                DeletableTopicResult {
                    name: Some(ns[i].clone()),
                    error_code: UNKNOWN_SERVER_ERROR,
                },
            );
            i = i + 1;
        }
    }
    r
}

/// One configs outcome per requested resource, all failed.
pub fn describe_configs_error_slots(resources: &Option<Vec<DescribeConfigsResource>>) -> (r: Vec<
    DescribeConfigsResult,
>)
    ensures
        r@.len() == (match resources {
            Some(rs) => rs@.len(),
            None => 0nat,
        }),
        forall|k: int|
            0 <= k < r@.len() ==> (#[trigger] r@[k]).resource_name@
                == resources->Some_0@[k].resource_name@ && r@[k].error_code
                == UNKNOWN_SERVER_ERROR && r@[k].configs@.len() == 0,
{
    let mut r: Vec<DescribeConfigsResult> = Vec::new();
    let rs: &Vec<DescribeConfigsResource> = match resources {
        Some(rs) => rs,
        None => {
            return r;
        },
    };
    let mut i: usize = 0;
    while i < rs.len()
        invariant
            i <= rs@.len(),
            r@.len() == i,
            forall|k: int|
                0 <= k < i ==> (#[trigger] r@[k]).resource_name@ == rs@[k].resource_name@
                    && r@[k].error_code == UNKNOWN_SERVER_ERROR && r@[k].configs@.len() == 0,
        decreases rs@.len() - i,
    {
        r.push(
            DescribeConfigsResult {
                resource_name: rs[i].resource_name.clone(),
                error_code: UNKNOWN_SERVER_ERROR,
                configs: Vec::new(),
            },
        );
        i = i + 1;
    }
    r
}

/// One metadata topic per requested topic, all failed.
pub fn metadata_error_slots(topics: &Option<Vec<MetadataTopic>>) -> (r: Vec<
    MetadataTopicResponse,
>)
    ensures
        r@.len() == (match topics {
            Some(ts) => ts@.len(),
            None => 0nat,
        }),
        forall|k: int|
            0 <= k < r@.len() ==> (#[trigger] r@[k]).error_code == UNKNOWN_SERVER_ERROR
                && r@[k].partitions@.len() == 0,
{
    let mut r: Vec<MetadataTopicResponse> = Vec::new();
    let ts: &Vec<MetadataTopic> = match topics {
        Some(ts) => ts,
        None => {
            return r;
        },
    };
    let mut i: usize = 0;
    while i < ts.len()
        invariant
            i <= ts@.len(),
            r@.len() == i,
            forall|k: int|
                0 <= k < i ==> (#[trigger] r@[k]).error_code == UNKNOWN_SERVER_ERROR
                    && r@[k].partitions@.len() == 0,
        decreases ts@.len() - i,
    {
        let name: Option<String> = match &ts[i].name {
            Some(n) => Some(n.clone()),
            None => None,
        };
        r.push(
            MetadataTopicResponse {
                error_code: UNKNOWN_SERVER_ERROR,
                name,
                partitions: Vec::new(),
            },
        );
        i = i + 1;
    }
    r
}

/// One failed offset-commit outcome per partition of one topic.
fn offset_commit_partition_error_slots(ps: &Vec<OffsetCommitPartition>) -> (r: Vec<
    OffsetCommitPartitionResponse,
>)
    ensures
        r@.len() == ps@.len(),
        forall|j: int|
            0 <= j < r@.len() ==> (#[trigger] r@[j]).partition_index == ps@[j].partition_index
                && r@[j].error_code == UNKNOWN_SERVER_ERROR,
{
    let mut r: Vec<OffsetCommitPartitionResponse> = Vec::new();
    let mut j: usize = 0;
    while j < ps.len()
        invariant
            j <= ps@.len(),
            r@.len() == j,
            forall|k: int|
                0 <= k < j ==> (#[trigger] r@[k]).partition_index == ps@[k].partition_index
                    && r@[k].error_code == UNKNOWN_SERVER_ERROR,
        decreases ps@.len() - j,
    {
        r.push(
            OffsetCommitPartitionResponse {
                partition_index: ps[j].partition_index,
                error_code: UNKNOWN_SERVER_ERROR,
            },
        );
        j = j + 1;
    }
    r
}

/// One failed offset-commit outcome per partition of every topic.
pub fn offset_commit_error_slots(topics: &Option<Vec<OffsetCommitTopic>>) -> (r: Vec<
    OffsetCommitTopicResponse,
>)
    ensures
        r@.len() == (match topics {
            Some(ts) => ts@.len(),
            None => 0nat,
        }),
        forall|k: int|
            0 <= k < r@.len() ==> {
                &&& (#[trigger] r@[k]).name@ == topics->Some_0@[k].name@
                &&& r@[k].partitions@.len() == topics->Some_0@[k].partitions@.len()
                &&& (forall|j: int|
                    0 <= j < r@[k].partitions@.len() ==> (#[trigger] r@[k].partitions@[j]).partition_index
                        == topics->Some_0@[k].partitions@[j].partition_index
                        && r@[k].partitions@[j].error_code == UNKNOWN_SERVER_ERROR)
            },
{
    let mut r: Vec<OffsetCommitTopicResponse> = Vec::new();
    let ts: &Vec<OffsetCommitTopic> = match topics {
        Some(ts) => ts,
        None => {
            return r;
        },
    };
    let mut i: usize = 0;
    while i < ts.len()
        invariant
            i <= ts@.len(),
            r@.len() == i,
            forall|k: int|
                0 <= k < i ==> {
                    &&& (#[trigger] r@[k]).name@ == ts@[k].name@
                    &&& r@[k].partitions@.len() == ts@[k].partitions@.len()
                    &&& (forall|j: int|
                        0 <= j < r@[k].partitions@.len() ==> (
                        #[trigger] r@[k].partitions@[j]).partition_index
                            == ts@[k].partitions@[j].partition_index
                            && r@[k].partitions@[j].error_code == UNKNOWN_SERVER_ERROR)
                },
        decreases ts@.len() - i,
    {
        let partitions = offset_commit_partition_error_slots(&ts[i].partitions);
        r.push(OffsetCommitTopicResponse { name: ts[i].name.clone(), partitions });
        i = i + 1;
    }
    r
}

/// One failed transactional offset-commit outcome per partition of every
/// topic.
pub fn txn_offset_commit_error_slots(topics: &Option<Vec<TxnOffsetCommitTopic>>) -> (r: Vec<
    TxnOffsetCommitTopicResponse,
>)
    ensures
        r@.len() == (match topics {
            Some(ts) => ts@.len(),
            None => 0nat,
        }),
        forall|k: int|
            0 <= k < r@.len() ==> {
                &&& (#[trigger] r@[k]).name@ == topics->Some_0@[k].name@
                &&& r@[k].partitions@.len() == topics->Some_0@[k].partitions@.len()
                &&& (forall|j: int|
                    0 <= j < r@[k].partitions@.len() ==> (#[trigger] r@[k].partitions@[j]).partition_index
                        == topics->Some_0@[k].partitions@[j].partition_index
                        && r@[k].partitions@[j].error_code == UNKNOWN_SERVER_ERROR)
            },
{
    let mut r: Vec<TxnOffsetCommitTopicResponse> = Vec::new();
    let ts: &Vec<TxnOffsetCommitTopic> = match topics {
        Some(ts) => ts,
        None => {
            return r;
        },
    };
    let mut i: usize = 0;
    while i < ts.len()
        invariant
            i <= ts@.len(),
            r@.len() == i,
            forall|k: int|
                0 <= k < i ==> {
                    &&& (#[trigger] r@[k]).name@ == ts@[k].name@
                    &&& r@[k].partitions@.len() == ts@[k].partitions@.len()
                    &&& (forall|j: int|
                        0 <= j < r@[k].partitions@.len() ==> (
                        #[trigger] r@[k].partitions@[j]).partition_index
                            == ts@[k].partitions@[j].partition_index
                            && r@[k].partitions@[j].error_code == UNKNOWN_SERVER_ERROR)
                },
        decreases ts@.len() - i,
    {
        let partitions = offset_commit_partition_error_slots(&ts[i].partitions);
        r.push(TxnOffsetCommitTopicResponse { name: ts[i].name.clone(), partitions });
        i = i + 1;
    }
    r
}

/// One failed offset listing per partition of one topic.
fn list_offsets_partition_error_slots(ps: &Vec<ListOffsetsPartition>) -> (r: Vec<
    ListOffsetsPartitionResponse,
>)
    ensures
        r@.len() == ps@.len(),
        forall|j: int|
            0 <= j < r@.len() ==> (#[trigger] r@[j]).partition_index == ps@[j].partition_index
                && r@[j].error_code == UNKNOWN_SERVER_ERROR && r@[j].timestamp == None::<i64>
                && r@[j].offset == None::<i64>,
{
    let mut r: Vec<ListOffsetsPartitionResponse> = Vec::new();
    let mut j: usize = 0;
    while j < ps.len()
        invariant
            j <= ps@.len(),
            r@.len() == j,
            forall|k: int|
                0 <= k < j ==> (#[trigger] r@[k]).partition_index == ps@[k].partition_index
                    && r@[k].error_code == UNKNOWN_SERVER_ERROR && r@[k].timestamp == None::<i64>
                    && r@[k].offset == None::<i64>,
        decreases ps@.len() - j,
    {
        r.push(
            ListOffsetsPartitionResponse {
                partition_index: ps[j].partition_index,
                error_code: UNKNOWN_SERVER_ERROR,
                timestamp: None,
                offset: None,
            },
        );
        j = j + 1;
    }
    r
}

/// One failed offset listing per partition of every topic.
pub fn list_offsets_error_slots(topics: &Option<Vec<ListOffsetsTopic>>) -> (r: Vec<
    ListOffsetsTopicResponse,
>)
    ensures
        r@.len() == (match topics {
            Some(ts) => ts@.len(),
            None => 0nat,
        }),
        forall|k: int|
            0 <= k < r@.len() ==> {
                &&& (#[trigger] r@[k]).name@ == topics->Some_0@[k].name@
                &&& r@[k].partitions@.len() == topics->Some_0@[k].partitions@.len()
                &&& (forall|j: int|
                    0 <= j < r@[k].partitions@.len() ==> (#[trigger] r@[k].partitions@[j]).partition_index
                        == topics->Some_0@[k].partitions@[j].partition_index
                        && r@[k].partitions@[j].error_code == UNKNOWN_SERVER_ERROR)
            },
{
    let mut r: Vec<ListOffsetsTopicResponse> = Vec::new();
    let ts: &Vec<ListOffsetsTopic> = match topics {
        Some(ts) => ts,
        None => {
            return r;
        },
    };
    let mut i: usize = 0;
    while i < ts.len()
        invariant
            i <= ts@.len(),
            r@.len() == i,
            forall|k: int|
                0 <= k < i ==> {
                    &&& (#[trigger] r@[k]).name@ == ts@[k].name@
                    &&& r@[k].partitions@.len() == ts@[k].partitions@.len()
                    &&& (forall|j: int|
                        0 <= j < r@[k].partitions@.len() ==> (
                        #[trigger] r@[k].partitions@[j]).partition_index
                            == ts@[k].partitions@[j].partition_index
                            && r@[k].partitions@[j].error_code == UNKNOWN_SERVER_ERROR)
                },
        decreases ts@.len() - i,
    {
        let partitions = list_offsets_partition_error_slots(&ts[i].partitions);
        r.push(ListOffsetsTopicResponse { name: ts[i].name.clone(), partitions });
        i = i + 1;
    }
    r
}

/// One failed produce outcome per partition of one topic.
fn produce_partition_error_slots(ps: &Option<Vec<PartitionProduceData>>) -> (r: Vec<
    PartitionProduceResponse,
>)
    ensures
        r@.len() == (match ps {
            Some(v) => v@.len(),
            None => 0nat,
        }),
        forall|j: int|
            0 <= j < r@.len() ==> (#[trigger] r@[j]).index == ps->Some_0@[j].index
                && r@[j].error_code == UNKNOWN_SERVER_ERROR && r@[j].base_offset == -1,
{
    let mut r: Vec<PartitionProduceResponse> = Vec::new();
    let v: &Vec<PartitionProduceData> = match ps {
        Some(v) => v,
        None => {
            return r;
        },
    };
    let mut j: usize = 0;
    while j < v.len()
        invariant
            j <= v@.len(),
            r@.len() == j,
            forall|k: int|
                0 <= k < j ==> (#[trigger] r@[k]).index == v@[k].index && r@[k].error_code
                    == UNKNOWN_SERVER_ERROR && r@[k].base_offset == -1,
        decreases v@.len() - j,
    {
        r.push(
            PartitionProduceResponse {
                index: v[j].index,
                error_code: UNKNOWN_SERVER_ERROR,
                base_offset: -1,
            },
        );
        j = j + 1;
    }
    r
}

/// One failed produce outcome per partition of every topic.
pub fn produce_error_slots(topic_data: &Option<Vec<TopicProduceData>>) -> (r: Vec<
    TopicProduceResponse,
>)
    ensures
        r@.len() == (match topic_data {
            Some(ts) => ts@.len(),
            None => 0nat,
        }),
        forall|k: int|
            0 <= k < r@.len() ==> {
                &&& (#[trigger] r@[k]).name@ == topic_data->Some_0@[k].name@
                &&& (forall|j: int|
                    0 <= j < r@[k].partition_responses@.len() ==> (
                    #[trigger] r@[k].partition_responses@[j]).error_code == UNKNOWN_SERVER_ERROR)
            },
{
    let mut r: Vec<TopicProduceResponse> = Vec::new();
    let ts: &Vec<TopicProduceData> = match topic_data {
        Some(ts) => ts,
        None => {
            return r;
        },
    };
    let mut i: usize = 0;
    while i < ts.len()
        invariant
            i <= ts@.len(),
            r@.len() == i,
            forall|k: int|
                0 <= k < i ==> {
                    &&& (#[trigger] r@[k]).name@ == ts@[k].name@
                    &&& (forall|j: int|
                        0 <= j < r@[k].partition_responses@.len() ==> (
                        #[trigger] r@[k].partition_responses@[j]).error_code
                            == UNKNOWN_SERVER_ERROR)
                },
        decreases ts@.len() - i,
    {
        let partition_responses = produce_partition_error_slots(&ts[i].partition_data);
        r.push(TopicProduceResponse { name: ts[i].name.clone(), partition_responses });
        i = i + 1;
    }
    r
}

/// One failed transactional add per partition of one topic.
fn txn_partition_error_slots(ps: &Vec<i32>) -> (r: Vec<TxnPartitionResult>)
    ensures
        r@.len() == ps@.len(),
        forall|j: int|
            0 <= j < r@.len() ==> (#[trigger] r@[j]).partition_index == ps@[j] && r@[j].error_code
                == UNKNOWN_SERVER_ERROR,
{
    let mut r: Vec<TxnPartitionResult> = Vec::new();
    let mut j: usize = 0;
    while j < ps.len()
        invariant
            j <= ps@.len(),
            r@.len() == j,
            forall|k: int|
                0 <= k < j ==> (#[trigger] r@[k]).partition_index == ps@[k] && r@[k].error_code
                    == UNKNOWN_SERVER_ERROR,
        decreases ps@.len() - j,
    {
        r.push(TxnPartitionResult { partition_index: ps[j], error_code: UNKNOWN_SERVER_ERROR });
        j = j + 1;
    }
    r
}

/// One failed transactional add per partition of every topic.
pub fn add_partitions_error_slots(topics: &Vec<TxnTopic>) -> (r: Vec<TxnTopicResult>)
    ensures
        r@.len() == topics@.len(),
        forall|k: int|
            0 <= k < r@.len() ==> {
                &&& (#[trigger] r@[k]).name@ == topics@[k].name@
                &&& r@[k].results@.len() == topics@[k].partitions@.len()
                &&& (forall|j: int|
                    0 <= j < r@[k].results@.len() ==> (#[trigger] r@[k].results@[j]).partition_index
                        == topics@[k].partitions@[j] && r@[k].results@[j].error_code
                        == UNKNOWN_SERVER_ERROR)
            },
{
    let mut r: Vec<TxnTopicResult> = Vec::new();
    let mut i: usize = 0;
    while i < topics.len()
        invariant
            i <= topics@.len(),
            r@.len() == i,
            forall|k: int|
                0 <= k < i ==> {
                    &&& (#[trigger] r@[k]).name@ == topics@[k].name@
                    &&& r@[k].results@.len() == topics@[k].partitions@.len()
                    &&& (forall|j: int|
                        0 <= j < r@[k].results@.len() ==> (
                        #[trigger] r@[k].results@[j]).partition_index == topics@[k].partitions@[j]
                            && r@[k].results@[j].error_code == UNKNOWN_SERVER_ERROR)
                },
        decreases topics@.len() - i,
    {
        let results = txn_partition_error_slots(&topics[i].partitions);
        r.push(TxnTopicResult { name: topics[i].name.clone(), results });
        i = i + 1;
    }
    r
}

/// One failed truncation per partition of one topic.
fn delete_records_partition_error_slots(ps: &Vec<DeleteRecordsPartition>) -> (r: Vec<
    DeleteRecordsPartitionResult,
>)
    ensures
        r@.len() == ps@.len(),
        forall|j: int|
            0 <= j < r@.len() ==> (#[trigger] r@[j]).partition_index == ps@[j].partition_index
                && r@[j].low_watermark == -1 && r@[j].error_code == UNKNOWN_SERVER_ERROR,
{
    let mut r: Vec<DeleteRecordsPartitionResult> = Vec::new();
    let mut j: usize = 0;
    while j < ps.len()
        invariant
            j <= ps@.len(),
            r@.len() == j,
            forall|k: int|
                0 <= k < j ==> (#[trigger] r@[k]).partition_index == ps@[k].partition_index
                    && r@[k].low_watermark == -1 && r@[k].error_code == UNKNOWN_SERVER_ERROR,
        decreases ps@.len() - j,
    {
        r.push(
            DeleteRecordsPartitionResult {
                partition_index: ps[j].partition_index,
                low_watermark: -1,
                error_code: UNKNOWN_SERVER_ERROR,
            },
        );
        j = j + 1;
    }
    r
}

/// One failed truncation per partition of every topic.
pub fn delete_records_error_slots(topics: &Option<Vec<DeleteRecordsTopic>>) -> (r: Vec<
    DeleteRecordsTopicResult,
>)
    ensures
        r@.len() == (match topics {
            Some(ts) => ts@.len(),
            None => 0nat,
        }),
        forall|k: int|
            0 <= k < r@.len() ==> {
                &&& (#[trigger] r@[k]).name@ == topics->Some_0@[k].name@
                &&& r@[k].partitions@.len() == topics->Some_0@[k].partitions@.len()
                &&& (forall|j: int|
                    0 <= j < r@[k].partitions@.len() ==> (#[trigger] r@[k].partitions@[j]).error_code
                        == UNKNOWN_SERVER_ERROR)
            },
{
    let mut r: Vec<DeleteRecordsTopicResult> = Vec::new();
    let ts: &Vec<DeleteRecordsTopic> = match topics {
        Some(ts) => ts,
        None => {
            return r;
        },
    };
    let mut i: usize = 0;
    while i < ts.len()
        invariant
            i <= ts@.len(),
            r@.len() == i,
            forall|k: int|
                0 <= k < i ==> {
                    &&& (#[trigger] r@[k]).name@ == ts@[k].name@
                    &&& r@[k].partitions@.len() == ts@[k].partitions@.len()
                    &&& (forall|j: int|
                        0 <= j < r@[k].partitions@.len() ==> (
                        #[trigger] r@[k].partitions@[j]).error_code == UNKNOWN_SERVER_ERROR)
                },
        decreases ts@.len() - i,
    {
        let partitions = delete_records_partition_error_slots(&ts[i].partitions);
        r.push(DeleteRecordsTopicResult { name: ts[i].name.clone(), partitions });
        i = i + 1;
    }
    r
}

// ===== responses that carry their codes per result slot =====

/// The CreateTopics response for a delegate outcome: on failure, the prepared
/// per-slot errors stand in for the results.
pub fn create_topics_response(error_slots: Vec<CreatableTopicResult>, outcome: Result<Vec<CreatableTopicResult>, Error>) -> (r: Body)
    ensures
        r == (match outcome {
            Ok(results) => Body::CreateTopicsResponse { throttle_time_ms: Some(0), topics: Some(results) },
            Err(_) => Body::CreateTopicsResponse { throttle_time_ms: Some(0), topics: Some(error_slots) },
        }),
{
    match outcome {
        Ok(results) => Body::CreateTopicsResponse { throttle_time_ms: Some(0), topics: Some(results) },
        Err(_) => Body::CreateTopicsResponse { throttle_time_ms: Some(0), topics: Some(error_slots) },
    }
}

/// The DeleteGroups response for a delegate outcome: on failure, the prepared
/// per-slot errors stand in for the results.
pub fn delete_groups_response(error_slots: Vec<DeletableGroupResult>, outcome: Result<Vec<DeletableGroupResult>, Error>) -> (r: Body)
    ensures
        r == (match outcome {
            Ok(results) => Body::DeleteGroupsResponse { throttle_time_ms: 0, results: Some(results) },
            Err(_) => Body::DeleteGroupsResponse { throttle_time_ms: 0, results: Some(error_slots) },
        }),
{
    match outcome {
        Ok(results) => Body::DeleteGroupsResponse { throttle_time_ms: 0, results: Some(results) },
        Err(_) => Body::DeleteGroupsResponse { throttle_time_ms: 0, results: Some(error_slots) },
    }
}

/// The DeleteTopics response for a delegate outcome: on failure, the prepared
/// per-slot errors stand in for the results.
pub fn delete_topics_response(error_slots: Vec<DeletableTopicResult>, outcome: Result<Vec<DeletableTopicResult>, Error>) -> (r: Body)
    ensures
        r == (match outcome {
            Ok(results) => Body::DeleteTopicsResponse { throttle_time_ms: Some(0), responses: Some(results) },
            Err(_) => Body::DeleteTopicsResponse { throttle_time_ms: Some(0), responses: Some(error_slots) },
        }),
{
    match outcome {
        Ok(results) => Body::DeleteTopicsResponse { throttle_time_ms: Some(0), responses: Some(results) },
        Err(_) => Body::DeleteTopicsResponse { throttle_time_ms: Some(0), responses: Some(error_slots) },
    }
}

/// The DescribeConfigs response for a delegate outcome: on failure, the prepared
/// per-slot errors stand in for the results.
pub fn describe_configs_response(error_slots: Vec<DescribeConfigsResult>, outcome: Result<Vec<DescribeConfigsResult>, Error>) -> (r: Body)
    ensures
        r == (match outcome {
            Ok(results) => Body::DescribeConfigsResponse { throttle_time_ms: 0, results: Some(results) },
            Err(_) => Body::DescribeConfigsResponse { throttle_time_ms: 0, results: Some(error_slots) },
        }),
{
    match outcome {
        Ok(results) => Body::DescribeConfigsResponse { throttle_time_ms: 0, results: Some(results) },
        Err(_) => Body::DescribeConfigsResponse { throttle_time_ms: 0, results: Some(error_slots) },
    }
}

/// The DescribeGroups response for a delegate outcome: on failure, the prepared
/// per-slot errors stand in for the results.
pub fn describe_groups_response(error_slots: Vec<DescribedGroup>, outcome: Result<Vec<DescribedGroup>, Error>) -> (r: Body)
    ensures
        r == (match outcome {
            Ok(results) => Body::DescribeGroupsResponse { throttle_time_ms: Some(0), groups: Some(results) },
            Err(_) => Body::DescribeGroupsResponse { throttle_time_ms: Some(0), groups: Some(error_slots) },
        }),
{
    match outcome {
        Ok(results) => Body::DescribeGroupsResponse { throttle_time_ms: Some(0), groups: Some(results) },
        Err(_) => Body::DescribeGroupsResponse { throttle_time_ms: Some(0), groups: Some(error_slots) },
    }
}

/// The ConsumerGroupDescribe response for a delegate outcome: on failure, the prepared
/// per-slot errors stand in for the results.
pub fn consumer_group_describe_response(error_slots: Vec<DescribedGroup>, outcome: Result<Vec<DescribedGroup>, Error>) -> (r: Body)
    ensures
        r == (match outcome {
            Ok(results) => Body::ConsumerGroupDescribeResponse { throttle_time_ms: 0, groups: Some(results) },
            Err(_) => Body::ConsumerGroupDescribeResponse { throttle_time_ms: 0, groups: Some(error_slots) },
        }),
{
    match outcome {
        Ok(results) => Body::ConsumerGroupDescribeResponse { throttle_time_ms: 0, groups: Some(results) },
        Err(_) => Body::ConsumerGroupDescribeResponse { throttle_time_ms: 0, groups: Some(error_slots) },
    }
}

/// The ListOffsets response for a delegate outcome: on failure, the prepared
/// per-slot errors stand in for the results.
pub fn list_offsets_response(error_slots: Vec<ListOffsetsTopicResponse>, outcome: Result<Vec<ListOffsetsTopicResponse>, Error>) -> (r: Body)
    ensures
        r == (match outcome {
            Ok(results) => Body::ListOffsetsResponse { throttle_time_ms: Some(0), topics: Some(results) },
            Err(_) => Body::ListOffsetsResponse { throttle_time_ms: Some(0), topics: Some(error_slots) },
        }),
{
    match outcome {
        Ok(results) => Body::ListOffsetsResponse { throttle_time_ms: Some(0), topics: Some(results) },
        Err(_) => Body::ListOffsetsResponse { throttle_time_ms: Some(0), topics: Some(error_slots) },
    }
}

/// The OffsetCommit response for a delegate outcome: on failure, the prepared
/// per-slot errors stand in for the results.
pub fn offset_commit_response(error_slots: Vec<OffsetCommitTopicResponse>, outcome: Result<Vec<OffsetCommitTopicResponse>, Error>) -> (r: Body)
    ensures
        r == (match outcome {
            Ok(results) => Body::OffsetCommitResponse { throttle_time_ms: Some(0), topics: Some(results) },
            Err(_) => Body::OffsetCommitResponse { throttle_time_ms: Some(0), topics: Some(error_slots) },
        }),
{
    match outcome {
        Ok(results) => Body::OffsetCommitResponse { throttle_time_ms: Some(0), topics: Some(results) },
        Err(_) => Body::OffsetCommitResponse { throttle_time_ms: Some(0), topics: Some(error_slots) },
    }
}

/// The TxnOffsetCommit response for a delegate outcome: on failure, the prepared
/// per-slot errors stand in for the results.
pub fn txn_offset_commit_response(error_slots: Vec<TxnOffsetCommitTopicResponse>, outcome: Result<Vec<TxnOffsetCommitTopicResponse>, Error>) -> (r: Body)
    ensures
        r == (match outcome {
            Ok(results) => Body::TxnOffsetCommitResponse { throttle_time_ms: 0, topics: Some(results) },
            Err(_) => Body::TxnOffsetCommitResponse { throttle_time_ms: 0, topics: Some(error_slots) },
        }),
{
    match outcome {
        Ok(results) => Body::TxnOffsetCommitResponse { throttle_time_ms: 0, topics: Some(results) },
        Err(_) => Body::TxnOffsetCommitResponse { throttle_time_ms: 0, topics: Some(error_slots) },
    }
}

/// The DeleteRecords response for a delegate outcome: on failure, the
/// prepared per-slot errors stand in for the results.
pub fn delete_records_response(
    error_slots: Vec<DeleteRecordsTopicResult>,
    outcome: Result<Vec<DeleteRecordsTopicResult>, Error>,
) -> (r: Body)
    ensures
        r == (match outcome {
            Ok(results) => Body::DeleteRecordsResponse { throttle_time_ms: 0, topics: results },
            Err(_) => Body::DeleteRecordsResponse { throttle_time_ms: 0, topics: error_slots },
        }),
{
    match outcome {
        Ok(results) => Body::DeleteRecordsResponse { throttle_time_ms: 0, topics: results },
        Err(_) => Body::DeleteRecordsResponse { throttle_time_ms: 0, topics: error_slots },
    }
}

/// The AddPartitionsToTxn response for a delegate outcome: on failure, the
/// prepared per-slot errors stand in for the results.
pub fn add_partitions_to_txn_response(
    error_slots: Vec<TxnTopicResult>,
    outcome: Result<Vec<TxnTopicResult>, Error>,
) -> (r: Body)
    ensures
        r == (match outcome {
            Ok(results) => Body::AddPartitionsToTxnResponse { throttle_time_ms: 0, results },
            Err(_) => Body::AddPartitionsToTxnResponse {
                throttle_time_ms: 0,
                results: error_slots,
            },
        }),
{
    match outcome {
        Ok(results) => Body::AddPartitionsToTxnResponse { throttle_time_ms: 0, results },
        Err(_) => Body::AddPartitionsToTxnResponse { throttle_time_ms: 0, results: error_slots },
    }
}

/// The Produce response for a delegate outcome: on failure, the prepared
/// per-slot errors stand in for the results.
pub fn produce_response(
    error_slots: Vec<TopicProduceResponse>,
    outcome: Result<Vec<TopicProduceResponse>, Error>,
) -> (r: Body)
    ensures
        r == (match outcome {
            Ok(responses) => Body::ProduceResponse {
                responses: Some(responses),
                throttle_time_ms: Some(0),
                node_endpoints: None,
            },
            Err(_) => Body::ProduceResponse {
                responses: Some(error_slots),
                throttle_time_ms: Some(0),
                node_endpoints: None,
            },
        }),
{
    match outcome {
        Ok(responses) => Body::ProduceResponse {
            responses: Some(responses),
            throttle_time_ms: Some(0),
            node_endpoints: None,
        },
        Err(_) => Body::ProduceResponse {
            responses: Some(error_slots),
            throttle_time_ms: Some(0),
            node_endpoints: None,
        },
    }
}

/// The Metadata response for a delegate outcome: the cluster id and
/// controller id are the broker's own either way; on failure the prepared
/// per-topic errors stand in, and no brokers are listed.
pub fn metadata_response(
    cluster_id: String,
    node_id: i32,
    error_slots: Vec<MetadataTopicResponse>,
    outcome: Result<MetadataResult, Error>,
) -> (r: Body)
    ensures
        (match outcome {
            Ok(o) => r == (Body::MetadataResponse {
                throttle_time_ms: Some(0),
                brokers: Some(o.brokers),
                cluster_id: Some(cluster_id),
                controller_id: Some(node_id),
                topics: Some(o.topics),
            }),
            Err(_) => r matches Body::MetadataResponse {
                throttle_time_ms: Some(0i32),
                brokers: Some(bs),
                cluster_id: Some(c),
                controller_id: Some(n),
                topics: Some(ts),
            } && bs@.len() == 0 && c == cluster_id && n == node_id && ts == error_slots,
        }),
{
    match outcome {
        Ok(o) => Body::MetadataResponse {
            throttle_time_ms: Some(0),
            brokers: Some(o.brokers),
            cluster_id: Some(cluster_id),
            controller_id: Some(node_id),
            topics: Some(o.topics),
        },
        Err(_) => Body::MetadataResponse {
            throttle_time_ms: Some(0),
            brokers: Some(Vec::new()),
            cluster_id: Some(cluster_id),
            controller_id: Some(node_id),
            topics: Some(error_slots),
        },
    }
}

// ===== the broker =====

/// The per-connection dispatcher's state: the broker's identity, its
/// advertised address, and the shared storage and coordinator handles.
#[derive(Clone, Debug)]
pub struct Broker<G, S> {
    pub node_id: i32,
    pub cluster_id: String,
    pub incarnation_id: u128,
    pub listener_host: String,
    pub listener_port: u16,
    pub advertised_host: String,
    pub advertised_port: u16,
    pub storage: S,
    pub groups: G,
}

/// The broker's own configuration survives a dispatch step; only the
/// delegate handles move.
pub open spec fn config_unchanged<G, S>(a: &Broker<G, S>, b: &Broker<G, S>) -> bool {
    &&& a.node_id == b.node_id
    &&& a.cluster_id@ == b.cluster_id@
    &&& a.incarnation_id == b.incarnation_id
    &&& a.listener_host@ == b.listener_host@
    &&& a.listener_port == b.listener_port
    &&& a.advertised_host@ == b.advertised_host@
    &&& a.advertised_port == b.advertised_port
}

/// The address a listener URL names, with the protocol defaults for the
/// parts it leaves out.
pub fn listener_host_port(host: Option<String>, port: Option<u16>) -> (r: (String, u16))
    ensures
        r.0@ == (match host {
            Some(h) => h@,
            None => "0.0.0.0"@,
        }),
        r.1 == (match port {
            Some(p) => p,
            None => 9092u16,
        }),
{
    let h: String = match host {
        Some(h) => h,
        None => String::from_str("0.0.0.0"),
    };
    let p: u16 = match port {
        Some(p) => p,
        None => 9092,
    };
    (h, p)
}

impl<G: Coordinator, S: Storage> Broker<G, S> {
    /// A broker with the given identity and delegate handles.
    pub fn new(
        node_id: i32,
        cluster_id: &str,
        listener_host: String,
        listener_port: u16,
        advertised_host: String,
        advertised_port: u16,
        storage: S,
        groups: G,
        incarnation_id: u128,
    ) -> (r: Self)
        ensures
            r.node_id == node_id,
            r.cluster_id@ == cluster_id@,
            r.incarnation_id == incarnation_id,
            r.listener_host == listener_host,
            r.listener_port == listener_port,
            r.advertised_host == advertised_host,
            r.advertised_port == advertised_port,
            r.storage == storage,
            r.groups == groups,
    {
        Broker {
            node_id,
            cluster_id: cluster_id.to_owned(),
            incarnation_id,
            listener_host,
            listener_port,
            advertised_host,
            advertised_port,
            storage,
            groups,
        }
    }

    /// Registers this broker with the storage backend. Only the storage
    /// handle can change: the configuration and the coordinator are left
    /// as they were.
    pub fn register(&mut self) -> (r: Result<(), Error>)
        ensures
            config_unchanged(old(self), final(self)),
            final(self).groups == old(self).groups,
    {
        let cluster = self.cluster_id.clone();
        self.storage.register_broker(self.node_id, cluster.as_str(), self.incarnation_id, None)
    }

    /// Routes one request body to its handler and builds the response
    /// body. Every response answers the request's own API with zero
    /// throttle: a handler cannot produce a mismatched body. A delegate
    /// failure never drops the connection: it is reported as an error code
    /// inside the well-formed response, per slot where the API carries
    /// per-slot codes. The dispatcher itself refuses only a produce with
    /// acks outside {-1, 0, 1} and an isolation level the protocol does
    /// not know; a body that is not a request is the dispatcher's own bug
    /// and is refused as such.
    #[verifier::rlimit(100)]
    #[verifier::spinoff_prover]
    pub fn response_for(&mut self, client_id: Option<&str>, body: Body, correlation_id: i32) -> (r:
        Result<Body, Error>)
        ensures
            config_unchanged(old(self), final(self)),
            match r {
                Ok(resp) => is_response(&resp) && api_key_of(&resp) == api_key_of(&body)
                    && crate::body::throttle_is_zero(&resp),
                Err(e) => true,
            },
            !is_request(&body) ==> r == Err::<Body, Error>(Error::InternalSchemaMismatch),
            is_request(&body) && request_malformed(&body) ==> r == Err::<Body, Error>(
                Error::MalformedInput,
            ),
            is_request(&body) && !request_malformed(&body) ==> r is Ok,
            (body matches Body::ApiVersionsRequest { .. }) ==> (match r {
                Ok(resp) => resp matches Body::ApiVersionsResponse {
                    error_code: 0i16,
                    api_keys,
                    throttle_time_ms: 0i32,
                } && api_keys.deep_view() == supported_api_ranges(),
                Err(_) => false,
            }),
            (match body {
                Body::GetTelemetrySubscriptionsRequest { client_instance_id } => r
                    matches Ok(resp) && resp matches Body::GetTelemetrySubscriptionsResponse {
                    throttle_time_ms: 0,
                    client_instance_id: cid,
                    subscription_id: 0,
                    push_interval_ms: 300000,
                    requested_metrics,
                } && cid == client_instance_id && requested_metrics@.len() == 0,
                _ => true,
            }),
            (match body {
                Body::FindCoordinatorRequest { key, key_type, coordinator_keys } => match r {
                    Ok(resp) => match resp {
                        Body::FindCoordinatorResponse {
                            throttle_time_ms,
                            error_code,
                            node_id,
                            host,
                            port,
                            coordinators,
                        } => {
                            &&& (match coordinator_keys {
                                Some(ks) => coordinators matches Some(cs) && cs@.len()
                                    == ks@.len() && (forall|i: int|
                                    0 <= i < cs@.len() ==> (#[trigger] cs@[i]).node_id == old(
                                        self,
                                    ).node_id && cs@[i].host@ == old(self).advertised_host@
                                        && cs@[i].port == old(self).advertised_port as i32
                                        && cs@[i].error_code == 0 && cs@[i].key@ == ks@[i]@),
                                None => {
                                    &&& node_id == Some(old(self).node_id)
                                    &&& (host matches Some(h) && h@ == old(
                                        self,
                                    ).advertised_host@)
                                    &&& port == Some(old(self).advertised_port as i32)
                                    &&& error_code == Some(0i16)
                                },
                            })
                            &&& throttle_time_ms == Some(0i32)
                        },
                        _ => false,
                    },
                    Err(_) => false,
                },
                _ => true,
            }),
            (match body {
                Body::MetadataRequest { .. } => match r {
                    Ok(resp) => resp matches Body::MetadataResponse {
                        cluster_id: Some(c),
                        controller_id: Some(n),
                        ..
                    } && c@ == old(self).cluster_id@ && n == old(self).node_id,
                    Err(_) => false,
                },
                _ => true,
            }),
            (match body {
                Body::DescribeClusterRequest { .. } => match r {
                    Ok(resp) => resp matches Body::DescribeClusterResponse { cluster_id: c, .. }
                        && c@ == old(self).cluster_id@,
                    Err(_) => false,
                },
                _ => true,
            }),
            (match body {
                Body::FetchRequest { .. } => match r {
                    Ok(resp) => resp matches Body::FetchResponse {
                        session_id: Some(0i32),
                        ..
                    },
                    Err(_) => true,
                },
                _ => true,
            }),
    {
        match body {
            Body::AddOffsetsToTxnRequest {
                transactional_id,
                producer_id,
                producer_epoch,
                group_id,
            } => {
                let outcome = self.storage.txn_add_offsets(
                    transactional_id.as_str(),
                    producer_id,
                    producer_epoch,
                    group_id.as_str(),
                );
                Ok(add_offsets_to_txn_response(outcome))
            },
            Body::AddPartitionsToTxnRequest {
                transactional_id,
                producer_id,
                producer_epoch,
                topics,
            } => {
                let error_slots = add_partitions_error_slots(&topics);
                let outcome = self.storage.txn_add_partitions(
                    transactional_id,
                    producer_id,
                    producer_epoch,
                    topics,
                );
                Ok(add_partitions_to_txn_response(error_slots, outcome))
            },
            Body::ApiVersionsRequest { .. } => Ok(
                Body::ApiVersionsResponse {
                    error_code: 0,
                    api_keys: supported_api_versions(),
                    throttle_time_ms: 0,
                },
            ),
            Body::ConsumerGroupDescribeRequest { group_ids, include_authorized_operations } => {
                let error_slots = describe_groups_error_slots(&group_ids);
                let outcome = self.storage.describe_groups(
                    group_ids,
                    include_authorized_operations,
                );
                Ok(consumer_group_describe_response(error_slots, outcome))
            },
            Body::CreateTopicsRequest { topics, validate_only, .. } => {
                let error_slots = create_topics_error_slots(&topics);
                let ts: Vec<CreatableTopic> = match topics {
                    Some(ts) => ts,
                    None => Vec::new(),
                };
                let vo: bool = match validate_only {
                    Some(v) => v,
                    None => false,
                };
                let outcome = self.storage.create_topics(ts, vo);
                Ok(create_topics_response(error_slots, outcome))
            },
            Body::DeleteGroupsRequest { groups_names } => {
                let error_slots = delete_groups_error_slots(&groups_names);
                let outcome = self.storage.delete_groups(groups_names);
                Ok(delete_groups_response(error_slots, outcome))
            },
            Body::DeleteRecordsRequest { topics, .. } => {
                let error_slots = delete_records_error_slots(&topics);
                let ts: Vec<DeleteRecordsTopic> = match topics {
                    Some(ts) => ts,
                    None => Vec::new(),
                };
                let outcome = self.storage.delete_records(ts);
                Ok(delete_records_response(error_slots, outcome))
            },
            Body::DeleteTopicsRequest { topics, topic_names, .. } => {
                let error_slots = delete_topics_error_slots(&topics, &topic_names);
                let outcome = self.storage.delete_topics(topics, topic_names);
                Ok(delete_topics_response(error_slots, outcome))
            },
            Body::DescribeClusterRequest { .. } => {
                let outcome = self.storage.brokers();
                Ok(describe_cluster_response(self.cluster_id.clone(), outcome))
            },
            Body::DescribeConfigsRequest { resources, include_synonyms, include_documentation } => {
                let error_slots = describe_configs_error_slots(&resources);
                let outcome = self.storage.describe_configs(
                    resources,
                    include_synonyms,
                    include_documentation,
                );
                Ok(describe_configs_response(error_slots, outcome))
            },
            Body::DescribeGroupsRequest { groups, include_authorized_operations } => {
                let error_slots = describe_groups_error_slots(&groups);
                let iao: bool = match include_authorized_operations {
                    Some(b) => b,
                    None => false,
                };
                let outcome = self.storage.describe_groups(groups, iao);
                Ok(describe_groups_response(error_slots, outcome))
            },
            Body::EndTxnRequest { transactional_id, producer_id, producer_epoch, committed } => {
                let outcome = self.storage.txn_end(
                    transactional_id.as_str(),
                    producer_id,
                    producer_epoch,
                    committed,
                );
                Ok(end_txn_response(outcome))
            },
            Body::FetchRequest { max_wait_ms, min_bytes, max_bytes, isolation_level, topics } => {
                let level: i8 = match isolation_level_value(isolation_level) {
                    Ok(l) => l,
                    Err(e) => {
                        return Err(e);
                    },
                };
                let outcome = self.storage.fetch(
                    max_wait_ms,
                    min_bytes,
                    max_bytes,
                    level,
                    topics,
                );
                Ok(fetch_response(outcome))
            },
            Body::FindCoordinatorRequest { key, key_type, coordinator_keys } => {
                match coordinator_keys {
                    Some(ks) => {
                        let mut cs: Vec<CoordinatorResult> = Vec::new();
                        let mut i: usize = 0;
                        while i < ks.len()
                            invariant
                                i <= ks@.len(),
                                cs@.len() == i,
                                forall|k: int|
                                    0 <= k < i ==> (#[trigger] cs@[k]).node_id == self.node_id
                                        && cs@[k].host@ == self.advertised_host@ && cs@[k].port
                                        == self.advertised_port as i32 && cs@[k].error_code == 0
                                        && cs@[k].key@ == ks@[k]@,
                            decreases ks@.len() - i,
                        {
                            cs.push(
                                CoordinatorResult {
                                    key: ks[i].clone(),
                                    node_id: self.node_id,
                                    host: self.advertised_host.clone(),
                                    port: self.advertised_port as i32,
                                    error_code: 0,
                                },
                            );
                            i = i + 1;
                        }
                        Ok(
                            Body::FindCoordinatorResponse {
                                throttle_time_ms: Some(0),
                                error_code: None,
                                node_id: None,
                                host: None,
                                port: None,
                                coordinators: Some(cs),
                            },
                        )
                    },
                    None => Ok(
                        Body::FindCoordinatorResponse {
                            throttle_time_ms: Some(0),
                            error_code: Some(0),
                            node_id: Some(self.node_id),
                            host: Some(self.advertised_host.clone()),
                            port: Some(self.advertised_port as i32),
                            coordinators: None,
                        },
                    ),
                }
            },
            Body::GetTelemetrySubscriptionsRequest { client_instance_id } => Ok(
                Body::GetTelemetrySubscriptionsResponse {
                    throttle_time_ms: 0,
                    client_instance_id,
                    subscription_id: 0,
                    push_interval_ms: 300000,
                    requested_metrics: Vec::new(),
                },
            ),
            Body::HeartbeatRequest { group_id, generation_id, member_id, group_instance_id } => {
                let outcome = self.groups.heartbeat(
                    group_id.as_str(),
                    generation_id,
                    member_id.as_str(),
                    group_instance_id,
                );
                Ok(heartbeat_response(outcome))
            },
            Body::InitProducerIdRequest {
                transactional_id,
                transaction_timeout_ms,
                producer_id,
                producer_epoch,
            } => {
                let outcome = self.storage.init_producer(
                    transactional_id,
                    transaction_timeout_ms,
                    producer_id,
                    producer_epoch,
                );
                Ok(init_producer_id_response(outcome))
            },
            Body::JoinGroupRequest {
                group_id,
                session_timeout_ms,
                rebalance_timeout_ms,
                member_id,
                group_instance_id,
                protocol_type,
                protocols,
                reason,
            } => {
                let outcome = self.groups.join(
                    client_id,
                    group_id.as_str(),
                    session_timeout_ms,
                    rebalance_timeout_ms,
                    member_id.as_str(),
                    group_instance_id,
                    protocol_type.as_str(),
                    protocols,
                    reason,
                );
                Ok(join_group_response(outcome))
            },
            Body::LeaveGroupRequest { group_id, member_id, members } => {
                let outcome = self.groups.leave(group_id.as_str(), member_id, members);
                Ok(leave_group_response(outcome))
            },
            Body::ListGroupsRequest { states_filter, .. } => {
                let outcome = self.storage.list_groups(states_filter);
                Ok(list_groups_response(outcome))
            },
            Body::ListOffsetsRequest { replica_id, isolation_level, topics } => {
                let level: i8 = match isolation_level_value(isolation_level) {
                    Ok(l) => l,
                    Err(e) => {
                        return Err(e);
                    },
                };
                let error_slots = list_offsets_error_slots(&topics);
                let outcome = self.storage.list_offsets(replica_id, level, topics);
                Ok(list_offsets_response(error_slots, outcome))
            },
            Body::ListPartitionReassignmentsRequest { topics, .. } => {
                let outcome = self.storage.list_partition_reassignments(topics);
                Ok(list_partition_reassignments_response(outcome))
            },
            Body::MetadataRequest { topics, .. } => {
                let error_slots = metadata_error_slots(&topics);
                let outcome = self.storage.metadata(topics);
                Ok(
                    metadata_response(
                        self.cluster_id.clone(),
                        self.node_id,
                        error_slots,
                        outcome,
                    ),
                )
            },
            Body::OffsetCommitRequest {
                group_id,
                generation_id_or_member_epoch,
                member_id,
                group_instance_id,
                retention_time_ms,
                topics,
            } => {
                let error_slots = offset_commit_error_slots(&topics);
                let detail = OffsetCommit {
                    group_id,
                    generation_id_or_member_epoch,
                    member_id,
                    group_instance_id,
                    retention_time_ms,
                    topics,
                };
                let outcome = self.groups.offset_commit(detail);
                Ok(offset_commit_response(error_slots, outcome))
            },
            Body::OffsetFetchRequest { group_id, topics, groups, require_stable } => {
                let gid_owned: Option<String> = group_id;
                let gid_ref: Option<&str> = match &gid_owned {
                    Some(g) => Some(g.as_str()),
                    None => None,
                };
                let outcome = self.groups.offset_fetch(gid_ref, topics, groups, require_stable);
                Ok(offset_fetch_response(outcome))
            },
            Body::ProduceRequest { transactional_id, acks, timeout_ms, topic_data } => {
                if !(acks == -1 || acks == 0 || acks == 1) {
                    return Err(Error::MalformedInput);
                }
                let error_slots = produce_error_slots(&topic_data);
                let outcome = self.storage.produce(transactional_id, topic_data);
                Ok(produce_response(error_slots, outcome))
            },
            Body::SyncGroupRequest {
                group_id,
                generation_id,
                member_id,
                group_instance_id,
                protocol_type,
                protocol_name,
                assignments,
            } => {
                let outcome = self.groups.sync(
                    group_id.as_str(),
                    generation_id,
                    member_id.as_str(),
                    group_instance_id,
                    protocol_type,
                    protocol_name,
                    assignments,
                );
                Ok(sync_group_response(outcome))
            },
            Body::TxnOffsetCommitRequest {
                transactional_id,
                group_id,
                producer_id,
                producer_epoch,
                generation_id,
                member_id,
                group_instance_id,
                topics,
            } => {
                let error_slots = txn_offset_commit_error_slots(&topics);
                let outcome = self.storage.txn_offset_commit(
                    transactional_id,
                    group_id,
                    producer_id,
                    producer_epoch,
                    generation_id,
                    member_id,
                    group_instance_id,
                    topics,
                );
                Ok(txn_offset_commit_response(error_slots, outcome))
            },
            _ => Err(Error::InternalSchemaMismatch),
        }
    }

    /// One dispatch step: route the body, and pair the response with the
    /// request's correlation id and its response-header form. The
    /// response always carries the request's correlation id and answers
    /// the request's API; every well-formed request gets a response.
    pub fn process_request(
        &mut self,
        client_id: Option<&str>,
        api_key: i16,
        api_version: i16,
        correlation_id: i32,
        body: Body,
    ) -> (r: Result<(i32, bool, Body), Error>)
        ensures
            config_unchanged(old(self), final(self)),
            match r {
                Ok(t) => {
                    &&& t.0 == correlation_id
                    &&& is_response(&t.2)
                    &&& api_key_of(&t.2) == api_key_of(&body)
                    &&& t.1 == (crate::body::is_flexible(api_key, api_version) && api_key
                        != API_API_VERSIONS)
                },
                Err(e) => true,
            },
            is_request(&body) && request_malformed(&body) ==> r == Err::<
                (i32, bool, Body),
                Error,
            >(Error::MalformedInput),
            is_request(&body) && !request_malformed(&body) ==> r is Ok,
            (body matches Body::ApiVersionsRequest { .. }) ==> (match r {
                Ok(t) => t.2 matches Body::ApiVersionsResponse { api_keys, .. }
                    && api_keys.deep_view() == supported_api_ranges(),
                Err(_) => true,
            }),
    {
        let resp = match self.response_for(client_id, body, correlation_id) {
            Ok(resp) => resp,
            Err(e) => {
                return Err(e);
            },
        };
        let flexible: bool = crate::body::response_header_flexible(api_key, api_version);
        Ok((correlation_id, flexible, resp))
    }

    /// A whole connection's worth of requests, answered strictly in
    /// order: the i-th response carries the i-th request's correlation id
    /// and answers its API. Every sequence of well-formed requests gets
    /// its full sequence of responses; only a malformed request drops the
    /// connection, with no further responses.
    pub fn respond_all(&mut self, client_id: Option<&str>, requests: Vec<(i32, i16, i16, Body)>)
        -> (r: Result<Vec<(i32, bool, Body)>, Error>)
        ensures
            config_unchanged(old(self), final(self)),
            match r {
                Ok(responses) => {
                    &&& responses@.len() == requests@.len()
                    &&& (forall|i: int|
                        0 <= i < responses@.len() ==> (#[trigger] responses@[i]).0
                            == requests@[i].0 && is_response(&responses@[i].2) && api_key_of(
                            &responses@[i].2,
                        ) == api_key_of(&requests@[i].3))
                },
                Err(e) => true,
            },
            (forall|i: int|
                0 <= i < requests@.len() ==> is_request(&(#[trigger] requests@[i]).3)
                    && !request_malformed(&requests@[i].3)) ==> r is Ok,
    {
        let ghost reqs0: Seq<(i32, i16, i16, Body)> = requests@;
        let mut pending: Vec<(i32, i16, i16, Body)> = requests;
        let mut responses: Vec<(i32, bool, Body)> = Vec::new();
        let mut i: usize = 0;
        let n0: usize = pending.len();
        while pending.len() > 0
            invariant
                requests@ == reqs0,
                i + pending@.len() == n0,
                n0 == reqs0.len(),
                pending@ == reqs0.skip(i as int),
                responses@.len() == i,
                config_unchanged(old(self), self),
                forall|k: int|
                    0 <= k < i ==> (#[trigger] responses@[k]).0 == reqs0[k].0 && is_response(
                        &responses@[k].2,
                    ) && api_key_of(&responses@[k].2) == api_key_of(&reqs0[k].3),
            decreases pending@.len(),
        {
            let ghost pend_pre: Seq<(i32, i16, i16, Body)> = pending@;
            let (correlation_id, api_key, api_version, body) = pending.remove(0);
            proof {
                assert(pend_pre[0] == reqs0[i as int]);
                assert(pending@ =~= reqs0.skip(i + 1));
            }
            let ghost breq: Body = pend_pre[0].3;
            let step = match self.process_request(
                client_id,
                api_key,
                api_version,
                correlation_id,
                body,
            ) {
                Ok(t) => t,
                Err(e) => {
                    proof {
                        assert(!(is_request(&reqs0[i as int].3) && !request_malformed(
                            &reqs0[i as int].3,
                        )));
                    }
                    return Err(e);
                },
            };
            responses.push(step);
            i = i + 1;
        }
        Ok(responses)
    }

    /// One whole dispatch step over bytes: decode the framed request,
    /// route it, and frame the response. The response bytes echo the
    /// framed request's own correlation id.
    #[verifier::rlimit(100)]
    #[verifier::spinoff_prover]
    pub fn respond_to_frame(&mut self, input: &[u8]) -> (r: Result<Vec<u8>, Error>)
        ensures
            config_unchanged(old(self), final(self)),
            match r {
                Ok(resp) => ({
                    let k = i16_of_u16(be_dec(input@.subrange(4, 6))) as i16;
                    let v = i16_of_u16(be_dec(input@.subrange(6, 8))) as i16;
                    &&& input@.len() >= 8
                    &&& (match request_frame_dec(input@, crate::body::is_flexible(k, v)) {
                        Some(p) => response_correlation_id(resp@) == p.0.0.correlation_id,
                        None => false,
                    })
                }),
                Err(e) => true,
            },
            ({
                let k = i16_of_u16(be_dec(input@.subrange(4, 6))) as i16;
                let v = i16_of_u16(be_dec(input@.subrange(6, 8))) as i16;
                &&& input@.len() >= 8
                &&& (match request_frame_dec(input@, crate::body::is_flexible(k, v)) {
                    Some(p) => request_body_decodes(p.0.0.api_key, p.0.0.api_version, p.0.2),
                    None => false,
                })
                &&& k == API_API_VERSIONS
            }) ==> r is Ok,
    {
        let d = match decode_request(input) {
            Ok(d) => d,
            Err(e) => {
                return Err(e);
            },
        };
        let DecodedRequest { header, tags: _, body } = d;
        let ghost bv: Body = body;
        proof {
            if api_key_of(&bv) == API_API_VERSIONS {
                assert(bv matches Body::ApiVersionsRequest { .. });
            }
        }
        let client: Option<&str> = client_id_str(&header.client_id);
        let step = match self.process_request(
            client,
            header.api_key,
            header.api_version,
            header.correlation_id,
            body,
        ) {
            Ok(t) => t,
            Err(e) => {
                return Err(e);
            },
        };
        let (correlation_id, flexible, resp_body) = step;
        proof {
            assert(supported_api_ranges().len() == 13);
            match &resp_body {
                Body::ApiVersionsResponse { api_keys, .. } => {
                    assert(api_keys.deep_view() == supported_api_ranges());
                    assert(api_keys.deep_view().len() == api_keys@.len());
                },
                _ => {},
            }
        }
        let mut body_out: Vec<u8> = Vec::new();
        match encode_response_body(&mut body_out, &resp_body, header.api_version) {
            Ok(_) => {},
            Err(e) => {
                return Err(e);
            },
        }
        proof {
            match &resp_body {
                Body::ApiVersionsResponse { error_code, api_keys, throttle_time_ms } => {
                    lemma_i16_roundtrip(*error_code);
                    lemma_i32_roundtrip(*throttle_time_ms);
                    lemma_ranges_cat_len(api_keys.deep_view());
                    lemma_ranges_flex_cat_len(api_keys.deep_view());
                    lemma_i32_roundtrip(api_keys.deep_view().len() as i32);
                    assert(uvarint_enc(14) =~= seq![14u8]);
                    assert(uvarint_enc(0) =~= seq![0u8]);
                    assert(body_out@.len() <= 210);
                },
                _ => {},
            }
        }
        if body_out.len() > 0x7fff_ffff - 5 {
            return Err(Error::MalformedInput);
        }
        let resp = encode_response_frame(correlation_id, flexible, body_out.as_slice());
        Ok(resp)
    }
}


// ===== whole frames, bytes to bytes =====

/// A decoded request: its header, its tagged fields, and its body.
pub struct DecodedRequest {
    pub header: RequestHeader,
    pub tags: Vec<TaggedField>,
    pub body: Body,
}

/// Reads one whole framed request: the sized frame, the header in the
/// form its API and version call for, and the body by the schema
/// registry.
#[verifier::rlimit(100)]
#[verifier::spinoff_prover]
pub fn decode_request(input: &[u8]) -> (r: Result<DecodedRequest, Error>)
    ensures
        r is Ok <==> ({
            &&& input@.len() >= 8
            &&& (match request_frame_dec(
                input@,
                crate::body::is_flexible(
                    i16_of_u16(be_dec(input@.subrange(4, 6))) as i16,
                    i16_of_u16(be_dec(input@.subrange(6, 8))) as i16,
                ),
            ) {
                Some(p) => request_body_decodes(p.0.0.api_key, p.0.0.api_version, p.0.2),
                None => false,
            })
        }),
        match r {
            Ok(d) => {
                &&& input@.len() >= 8
                &&& d.header.api_key as int == i16_of_u16(be_dec(input@.subrange(4, 6)))
                &&& d.header.api_version as int == i16_of_u16(be_dec(input@.subrange(6, 8)))
                &&& (request_frame_dec(
                    input@,
                    crate::body::is_flexible(d.header.api_key, d.header.api_version),
                ) matches Some(p) && p.0.0 == d.header@ && p.0.1 == d.tags.deep_view())
                &&& body_schema_known(d.header.api_key, d.header.api_version)
                &&& is_request(&d.body)
                &&& api_key_of(&d.body) == d.header.api_key
            },
            Err(e) => {
                e == Error::IncompleteFrame || e == Error::MalformedInput || e
                    == Error::SchemaMismatch
            },
        },
{
    let len: usize = input.len();
    if len < 8 {
        return Err(Error::IncompleteFrame);
    }
    proof {
        assert(input@.subrange(4, 6) =~= input@.subrange(4, 6));
    }
    let peek_key: i16 = read_i16(input, 4);
    let peek_version: i16 = read_i16(input, 6);
    let flexible: bool = request_header_flexible(peek_key, peek_version);
    let (header, tags, body_bytes, _used) = match decode_request_frame(input, flexible) {
        Ok(p) => p,
        Err(e) => {
            return Err(e);
        },
    };
    proof {
        reveal(request_frame_dec);
        reveal(request_header_dec);
        let size = crate::wire::i32_of_u32(be_dec(input@.subrange(0, 4)));
        let w = input@.subrange(4, 4 + size);
        assert(w.subrange(0, 2) =~= input@.subrange(4, 6));
        assert(w.subrange(2, 4) =~= input@.subrange(6, 8));
    }
    let body = match decode_request_body(header.api_key, header.api_version,
        body_bytes.as_slice()) {
        Ok(b) => b,
        Err(e) => {
            return Err(e);
        },
    };
    Ok(DecodedRequest { header, tags, body })
}

// ===== the read loop's size decision =====

/// What the read loop does with a size prefix.
#[derive(Clone, Copy, Debug, PartialEq, Eq, Structural)]
pub enum SizeDecision {
    /// A zero size: log an empty read and keep reading.
    SkipEmpty,
    /// A negative size can mean nothing: drop the connection.
    Invalid,
    /// Read this many payload bytes, then dispatch.
    Read(u32),
}

/// The read loop's decision for a frame's size prefix: zero is tolerated
/// and skipped, a negative size drops the connection, anything else asks
/// for exactly that many bytes.
pub fn size_decision(size: i32) -> (r: SizeDecision)
    ensures
        size == 0 ==> r == SizeDecision::SkipEmpty,
        size < 0 ==> r == SizeDecision::Invalid,
        size > 0 ==> r == SizeDecision::Read(size as u32),
{
    if size == 0 {
        SizeDecision::SkipEmpty
    } else if size < 0 {
        SizeDecision::Invalid
    } else {
        SizeDecision::Read(size as u32)
    }
}

} // verus!
