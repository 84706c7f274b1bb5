//! The request and response bodies the dispatcher routes, one variant per
//! (API, direction) pair, with the per-API tables: wire keys, flexible
//! boundaries, and span names.

use vstd::prelude::*;

verus! {

use crate::batch::Batch;
use crate::error::Error;
use crate::frame::cstr_dec;
use crate::frame::decode_cstr;
use crate::frame::decode_tagged_section;
use crate::frame::tagged_section_dec;
use crate::frame::tagged_section_enc;
use crate::frame::utf8_string;
use crate::frame::TaggedFieldV;
use crate::varint::encode_uvarint64;
use crate::varint::uvarint_enc;
use crate::wire::i16_enc;
use crate::wire::i32_enc;
use crate::wire::push_i16;
use crate::wire::push_i32;
use crate::wire::lemma_be_enc_len;
use crate::wire::u16_of_i16;
use crate::wire::u32_of_i32;
use vstd::utf8::encode_utf8;
use vstd::utf8::valid_utf8;

// ===== API keys =====

pub const API_PRODUCE: i16 = 0;
pub const API_FETCH: i16 = 1;
pub const API_LIST_OFFSETS: i16 = 2;
pub const API_METADATA: i16 = 3;
pub const API_OFFSET_COMMIT: i16 = 8;
pub const API_OFFSET_FETCH: i16 = 9;
pub const API_FIND_COORDINATOR: i16 = 10;
pub const API_JOIN_GROUP: i16 = 11;
pub const API_HEARTBEAT: i16 = 12;
pub const API_LEAVE_GROUP: i16 = 13;
pub const API_SYNC_GROUP: i16 = 14;
pub const API_DESCRIBE_GROUPS: i16 = 15;
pub const API_LIST_GROUPS: i16 = 16;
pub const API_API_VERSIONS: i16 = 18;
pub const API_CREATE_TOPICS: i16 = 19;
pub const API_DELETE_TOPICS: i16 = 20;
pub const API_DELETE_RECORDS: i16 = 21;
pub const API_INIT_PRODUCER_ID: i16 = 22;
pub const API_ADD_PARTITIONS_TO_TXN: i16 = 24;
pub const API_ADD_OFFSETS_TO_TXN: i16 = 25;
pub const API_END_TXN: i16 = 26;
pub const API_TXN_OFFSET_COMMIT: i16 = 28;
pub const API_DESCRIBE_CONFIGS: i16 = 32;
pub const API_DELETE_GROUPS: i16 = 42;
pub const API_LIST_PARTITION_REASSIGNMENTS: i16 = 46;
pub const API_DESCRIBE_CLUSTER: i16 = 60;
pub const API_CONSUMER_GROUP_DESCRIBE: i16 = 69;
pub const API_GET_TELEMETRY_SUBSCRIPTIONS: i16 = 71;

/// Sentinel: no version of this API is flexible.
pub const NEVER_FLEXIBLE: i16 = 0x7fff;

/// The version at which each API this broker speaks turns flexible:
/// compact encodings and tagged fields from there on.
pub open spec fn flexible_from(api_key: i16) -> i16 {
    if api_key == API_PRODUCE {
        9
    } else if api_key == API_FETCH {
        12
    } else if api_key == API_LIST_OFFSETS {
        6
    } else if api_key == API_METADATA {
        9
    } else if api_key == API_OFFSET_COMMIT {
        8
    } else if api_key == API_OFFSET_FETCH {
        6
    } else if api_key == API_FIND_COORDINATOR {
        3
    } else if api_key == API_JOIN_GROUP {
        6
    } else if api_key == API_HEARTBEAT {
        4
    } else if api_key == API_LEAVE_GROUP {
        4
    } else if api_key == API_SYNC_GROUP {
        4
    } else if api_key == API_DESCRIBE_GROUPS {
        5
    } else if api_key == API_LIST_GROUPS {
        3
    } else if api_key == API_API_VERSIONS {
        3
    } else if api_key == API_CREATE_TOPICS {
        5
    } else if api_key == API_DELETE_TOPICS {
        4
    } else if api_key == API_DELETE_RECORDS {
        2
    } else if api_key == API_INIT_PRODUCER_ID {
        2
    } else if api_key == API_ADD_PARTITIONS_TO_TXN {
        3
    } else if api_key == API_ADD_OFFSETS_TO_TXN {
        3
    } else if api_key == API_END_TXN {
        3
    } else if api_key == API_TXN_OFFSET_COMMIT {
        3
    } else if api_key == API_DESCRIBE_CONFIGS {
        4
    } else if api_key == API_DELETE_GROUPS {
        2
    } else if api_key == API_LIST_PARTITION_REASSIGNMENTS {
        0
    } else if api_key == API_DESCRIBE_CLUSTER {
        0
    } else if api_key == API_CONSUMER_GROUP_DESCRIBE {
        0
    } else if api_key == API_GET_TELEMETRY_SUBSCRIPTIONS {
        0
    } else {
        NEVER_FLEXIBLE
    }
}

/// A version `v` of an API is flexible iff `v >= flexible_from`.
pub open spec fn is_flexible(api_key: i16, api_version: i16) -> bool {
    api_version >= flexible_from(api_key)
}

/// Whether the request header carries a tagged-field section.
pub fn request_header_flexible(api_key: i16, api_version: i16) -> (r: bool)
    ensures
        r == is_flexible(api_key, api_version),
{
    let boundary: i16 = if api_key == API_PRODUCE {
        9
    } else if api_key == API_FETCH {
        12
    } else if api_key == API_LIST_OFFSETS {
        6
    } else if api_key == API_METADATA {
        9
    } else if api_key == API_OFFSET_COMMIT {
        8
    } else if api_key == API_OFFSET_FETCH {
        6
    } else if api_key == API_FIND_COORDINATOR {
        3
    } else if api_key == API_JOIN_GROUP {
        6
    } else if api_key == API_HEARTBEAT {
        4
    } else if api_key == API_LEAVE_GROUP {
        4
    } else if api_key == API_SYNC_GROUP {
        4
    } else if api_key == API_DESCRIBE_GROUPS {
        5
    } else if api_key == API_LIST_GROUPS {
        3
    } else if api_key == API_API_VERSIONS {
        3
    } else if api_key == API_CREATE_TOPICS {
        5
    } else if api_key == API_DELETE_TOPICS {
        4
    } else if api_key == API_DELETE_RECORDS {
        2
    } else if api_key == API_INIT_PRODUCER_ID {
        2
    } else if api_key == API_ADD_PARTITIONS_TO_TXN {
        3
    } else if api_key == API_ADD_OFFSETS_TO_TXN {
        3
    } else if api_key == API_END_TXN {
        3
    } else if api_key == API_TXN_OFFSET_COMMIT {
        3
    } else if api_key == API_DESCRIBE_CONFIGS {
        4
    } else if api_key == API_DELETE_GROUPS {
        2
    } else if api_key == API_LIST_PARTITION_REASSIGNMENTS {
        0
    } else if api_key == API_DESCRIBE_CLUSTER {
        0
    } else if api_key == API_CONSUMER_GROUP_DESCRIBE {
        0
    } else if api_key == API_GET_TELEMETRY_SUBSCRIPTIONS {
        0
    } else {
        NEVER_FLEXIBLE
    };
    api_version >= boundary
}

/// Whether the response header carries a tagged-field section. ApiVersions
/// responses keep the unflexible header at every version, so that clients
/// can read the version table before they know what the broker speaks.
pub fn response_header_flexible(api_key: i16, api_version: i16) -> (r: bool)
    ensures
        r == (is_flexible(api_key, api_version) && api_key != API_API_VERSIONS),
{
    api_key != API_API_VERSIONS && request_header_flexible(api_key, api_version)
}

// ===== nested request/response data =====

/// A topic to create.
#[derive(Clone, Debug, PartialEq, Eq, Hash)]
pub struct CreatableTopic {
    pub name: String,
    pub num_partitions: i32,
    pub replication_factor: i16,
}

/// Per-topic outcome of a create.
#[derive(Clone, Debug, PartialEq, Eq, Hash)]
pub struct CreatableTopicResult {
    pub name: String,
    pub error_code: i16,
}

/// A topic whose log is to be truncated, per partition.
#[derive(Clone, Debug, PartialEq, Eq, Hash)]
pub struct DeleteRecordsTopic {
    pub name: String,
    pub partitions: Vec<DeleteRecordsPartition>,
}

#[derive(Clone, Debug, PartialEq, Eq, Hash)]
pub struct DeleteRecordsPartition {
    pub partition_index: i32,
    pub offset: i64,
}

#[derive(Clone, Debug, PartialEq, Eq, Hash)]
pub struct DeleteRecordsTopicResult {
    pub name: String,
    pub partitions: Vec<DeleteRecordsPartitionResult>,
}

#[derive(Clone, Debug, PartialEq, Eq, Hash)]
pub struct DeleteRecordsPartitionResult {
    pub partition_index: i32,
    pub low_watermark: i64,
    pub error_code: i16,
}

/// A topic to delete, by name or id (the id held as its 128-bit value).
#[derive(Clone, Debug, PartialEq, Eq, Hash)]
pub struct DeleteTopicState {
    pub name: Option<String>,
    pub topic_id: u128,
}

#[derive(Clone, Debug, PartialEq, Eq, Hash)]
pub struct DeletableTopicResult {
    pub name: Option<String>,
    pub error_code: i16,
}

#[derive(Clone, Debug, PartialEq, Eq, Hash)]
pub struct DeletableGroupResult {
    pub group_id: String,
    pub error_code: i16,
}

#[derive(Clone, Debug, PartialEq, Eq, Hash)]
pub struct DescribedGroup {
    pub group_id: String,
    pub group_state: String,
    pub error_code: i16,
}

#[derive(Clone, Debug, PartialEq, Eq, Hash)]
pub struct DescribeConfigsResource {
    pub resource_type: i8,
    pub resource_name: String,
}

#[derive(Clone, Debug, PartialEq, Eq, Hash)]
pub struct ConfigEntry {
    pub name: String,
    pub value: Option<String>,
}

#[derive(Clone, Debug, PartialEq, Eq, Hash)]
pub struct DescribeConfigsResult {
    pub resource_name: String,
    pub error_code: i16,
    pub configs: Vec<ConfigEntry>,
}

/// A broker as metadata and cluster descriptions advertise it.
#[derive(Clone, Debug, PartialEq, Eq, Hash)]
pub struct BrokerNode {
    pub node_id: i32,
    pub host: String,
    pub port: i32,
    pub rack: Option<String>,
}

/// What `describe_cluster` reports: the controller and the brokers.
#[derive(Clone, Debug, PartialEq, Eq, Hash)]
pub struct ClusterDescription {
    pub controller_id: i32,
    pub brokers: Vec<BrokerNode>,
}

#[derive(Clone, Debug, PartialEq, Eq, Hash)]
pub struct ListedGroup {
    pub group_id: String,
    pub protocol_type: String,
    pub group_state: Option<String>,
}

#[derive(Clone, Debug, PartialEq, Eq, Hash)]
pub struct FetchTopic {
    pub topic: String,
    pub partitions: Vec<FetchPartition>,
}

#[derive(Clone, Debug, PartialEq, Eq, Hash)]
pub struct FetchPartition {
    pub partition: i32,
    pub fetch_offset: i64,
    pub partition_max_bytes: i32,
}

/// The reference-counted batches a fetch hands back, or a produce hands in.
#[derive(Clone, Debug, PartialEq, Eq, Hash)]
pub struct BatchSet {
    pub batches: Vec<Batch>,
}

#[derive(Clone, Debug, PartialEq, Eq, Hash)]
pub struct FetchTopicResponse {
    pub topic: String,
    pub partitions: Vec<FetchPartitionResponse>,
}

#[derive(Clone, Debug, PartialEq, Eq, Hash)]
pub struct FetchPartitionResponse {
    pub partition_index: i32,
    pub error_code: i16,
    pub high_watermark: i64,
    pub records: Option<BatchSet>,
}

#[derive(Clone, Debug, PartialEq, Eq, Hash)]
pub struct CoordinatorResult {
    pub key: String,
    pub node_id: i32,
    pub host: String,
    pub port: i32,
    pub error_code: i16,
}

#[derive(Clone, Debug, PartialEq, Eq, Hash)]
pub struct JoinGroupProtocol {
    pub name: String,
    pub metadata: Vec<u8>,
}

#[derive(Clone, Debug, PartialEq, Eq, Hash)]
pub struct JoinGroupMember {
    pub member_id: String,
    pub metadata: Vec<u8>,
}

#[derive(Clone, Debug, PartialEq, Eq, Hash)]
pub struct MemberIdentity {
    pub member_id: String,
    pub group_instance_id: Option<String>,
    pub reason: Option<String>,
}

#[derive(Clone, Debug, PartialEq, Eq, Hash)]
pub struct MemberResponse {
    pub member_id: String,
    pub error_code: i16,
}

#[derive(Clone, Debug, PartialEq, Eq, Hash)]
pub struct ListOffsetsTopic {
    pub name: String,
    pub partitions: Vec<ListOffsetsPartition>,
}

#[derive(Clone, Debug, PartialEq, Eq, Hash)]
pub struct ListOffsetsPartition {
    pub partition_index: i32,
    pub timestamp: i64,
}

#[derive(Clone, Debug, PartialEq, Eq, Hash)]
pub struct ListOffsetsTopicResponse {
    pub name: String,
    pub partitions: Vec<ListOffsetsPartitionResponse>,
}

#[derive(Clone, Debug, PartialEq, Eq, Hash)]
pub struct ListOffsetsPartitionResponse {
    pub partition_index: i32,
    pub error_code: i16,
    pub timestamp: Option<i64>,
    pub offset: Option<i64>,
}

#[derive(Clone, Debug, PartialEq, Eq, Hash)]
pub struct ReassignmentTopic {
    pub name: String,
    pub partitions: Vec<i32>,
}

#[derive(Clone, Debug, PartialEq, Eq, Hash)]
pub struct MetadataTopic {
    pub topic_id: u128,
    pub name: Option<String>,
}

#[derive(Clone, Debug, PartialEq, Eq, Hash)]
pub struct MetadataPartition {
    pub error_code: i16,
    pub partition_index: i32,
    pub leader_id: i32,
}

#[derive(Clone, Debug, PartialEq, Eq, Hash)]
pub struct MetadataTopicResponse {
    pub error_code: i16,
    pub name: Option<String>,
    pub partitions: Vec<MetadataPartition>,
}

/// What `metadata` reports: the brokers and the topics.
#[derive(Clone, Debug, PartialEq, Eq, Hash)]
pub struct MetadataResult {
    pub brokers: Vec<BrokerNode>,
    pub topics: Vec<MetadataTopicResponse>,
}

#[derive(Clone, Debug, PartialEq, Eq, Hash)]
pub struct OffsetCommitTopic {
    pub name: String,
    pub partitions: Vec<OffsetCommitPartition>,
}

#[derive(Clone, Debug, PartialEq, Eq, Hash)]
pub struct OffsetCommitPartition {
    pub partition_index: i32,
    pub committed_offset: i64,
    pub committed_leader_epoch: Option<i32>,
    pub committed_metadata: Option<String>,
}

#[derive(Clone, Debug, PartialEq, Eq, Hash)]
pub struct OffsetCommitTopicResponse {
    pub name: String,
    pub partitions: Vec<OffsetCommitPartitionResponse>,
}

#[derive(Clone, Debug, PartialEq, Eq, Hash)]
pub struct OffsetCommitPartitionResponse {
    pub partition_index: i32,
    pub error_code: i16,
}

#[derive(Clone, Debug, PartialEq, Eq, Hash)]
pub struct OffsetFetchTopic {
    pub name: String,
    pub partition_indexes: Vec<i32>,
}

#[derive(Clone, Debug, PartialEq, Eq, Hash)]
pub struct OffsetFetchGroup {
    pub group_id: String,
    pub topics: Option<Vec<OffsetFetchTopic>>,
}

#[derive(Clone, Debug, PartialEq, Eq, Hash)]
pub struct OffsetFetchTopicResponse {
    pub name: String,
    pub partitions: Vec<OffsetFetchPartitionResponse>,
}

#[derive(Clone, Debug, PartialEq, Eq, Hash)]
pub struct OffsetFetchPartitionResponse {
    pub partition_index: i32,
    pub committed_offset: i64,
    pub error_code: i16,
}

#[derive(Clone, Debug, PartialEq, Eq, Hash)]
pub struct OffsetFetchGroupResult {
    pub group_id: String,
    pub topics: Vec<OffsetFetchTopicResponse>,
    pub error_code: i16,
}

#[derive(Clone, Debug, PartialEq, Eq, Hash)]
pub struct TopicProduceData {
    pub name: String,
    pub partition_data: Option<Vec<PartitionProduceData>>,
}

#[derive(Clone, Debug, PartialEq, Eq, Hash)]
pub struct PartitionProduceData {
    pub index: i32,
    pub records: Option<BatchSet>,
}

#[derive(Clone, Debug, PartialEq, Eq, Hash)]
pub struct TopicProduceResponse {
    pub name: String,
    pub partition_responses: Vec<PartitionProduceResponse>,
}

#[derive(Clone, Debug, PartialEq, Eq, Hash)]
pub struct PartitionProduceResponse {
    pub index: i32,
    pub error_code: i16,
    pub base_offset: i64,
}

#[derive(Clone, Debug, PartialEq, Eq, Hash)]
pub struct NodeEndpoint {
    pub node_id: i32,
    pub host: String,
    pub port: i32,
}

#[derive(Clone, Debug, PartialEq, Eq, Hash)]
pub struct SyncGroupAssignment {
    pub member_id: String,
    pub assignment: Vec<u8>,
}

#[derive(Clone, Debug, PartialEq, Eq, Hash)]
pub struct TxnTopic {
    pub name: String,
    pub partitions: Vec<i32>,
}

#[derive(Clone, Debug, PartialEq, Eq, Hash)]
pub struct TxnTopicResult {
    pub name: String,
    pub results: Vec<TxnPartitionResult>,
}

#[derive(Clone, Debug, PartialEq, Eq, Hash)]
pub struct TxnPartitionResult {
    pub partition_index: i32,
    pub error_code: i16,
}

#[derive(Clone, Debug, PartialEq, Eq, Hash)]
pub struct TxnOffsetCommitTopic {
    pub name: String,
    pub partitions: Vec<OffsetCommitPartition>,
}

#[derive(Clone, Debug, PartialEq, Eq, Hash)]
pub struct TxnOffsetCommitTopicResponse {
    pub name: String,
    pub partitions: Vec<OffsetCommitPartitionResponse>,
}

/// One (api_key, min, max) row of the version table `ApiVersions` returns.
#[derive(Clone, Copy, Debug, PartialEq, Eq, Hash, Structural)]
pub struct ApiVersionRange {
    pub api_key: i16,
    pub min_version: i16,
    pub max_version: i16,
}

impl View for ApiVersionRange {
    type V = ApiVersionRange;

    open spec fn view(&self) -> ApiVersionRange {
        *self
    }
}

impl DeepView for ApiVersionRange {
    type V = ApiVersionRange;

    open spec fn deep_view(&self) -> ApiVersionRange {
        *self
    }
}

// ===== the body =====

/// A decoded request or response body: one variant per (api_key,
/// direction) pair this broker speaks. Bodies are request-scoped values,
/// built by decode and dropped after the response is written.
#[derive(Debug, PartialEq, Eq)]
pub enum Body {
    AddOffsetsToTxnRequest {
        transactional_id: String,
        producer_id: i64,
        producer_epoch: i16,
        group_id: String,
    },
    AddOffsetsToTxnResponse { throttle_time_ms: i32, error_code: i16 },
    AddPartitionsToTxnRequest {
        transactional_id: String,
        producer_id: i64,
        producer_epoch: i16,
        topics: Vec<TxnTopic>,
    },
    AddPartitionsToTxnResponse { throttle_time_ms: i32, results: Vec<TxnTopicResult> },
    ApiVersionsRequest {
        client_software_name: Option<String>,
        client_software_version: Option<String>,
    },
    ApiVersionsResponse {
        error_code: i16,
        api_keys: Vec<ApiVersionRange>,
        throttle_time_ms: i32,
    },
    ConsumerGroupDescribeRequest {
        group_ids: Option<Vec<String>>,
        include_authorized_operations: bool,
    },
    ConsumerGroupDescribeResponse { throttle_time_ms: i32, groups: Option<Vec<DescribedGroup>> },
    CreateTopicsRequest {
        topics: Option<Vec<CreatableTopic>>,
        timeout_ms: i32,
        validate_only: Option<bool>,
    },
    CreateTopicsResponse {
        throttle_time_ms: Option<i32>,
        topics: Option<Vec<CreatableTopicResult>>,
    },
    DeleteGroupsRequest { groups_names: Option<Vec<String>> },
    DeleteGroupsResponse { throttle_time_ms: i32, results: Option<Vec<DeletableGroupResult>> },
    DeleteRecordsRequest { topics: Option<Vec<DeleteRecordsTopic>>, timeout_ms: i32 },
    DeleteRecordsResponse { throttle_time_ms: i32, topics: Vec<DeleteRecordsTopicResult> },
    DeleteTopicsRequest {
        topics: Option<Vec<DeleteTopicState>>,
        topic_names: Option<Vec<String>>,
        timeout_ms: i32,
    },
    DeleteTopicsResponse {
        throttle_time_ms: Option<i32>,
        responses: Option<Vec<DeletableTopicResult>>,
    },
    DescribeClusterRequest { include_cluster_authorized_operations: bool, endpoint_type: Option<i8> },
    DescribeClusterResponse {
        throttle_time_ms: i32,
        error_code: i16,
        cluster_id: String,
        controller_id: i32,
        brokers: Vec<BrokerNode>,
    },
    DescribeConfigsRequest {
        resources: Option<Vec<DescribeConfigsResource>>,
        include_synonyms: Option<bool>,
        include_documentation: Option<bool>,
    },
    DescribeConfigsResponse { throttle_time_ms: i32, results: Option<Vec<DescribeConfigsResult>> },
    DescribeGroupsRequest {
        groups: Option<Vec<String>>,
        include_authorized_operations: Option<bool>,
    },
    DescribeGroupsResponse {
        throttle_time_ms: Option<i32>,
        groups: Option<Vec<DescribedGroup>>,
    },
    EndTxnRequest {
        transactional_id: String,
        producer_id: i64,
        producer_epoch: i16,
        committed: bool,
    },
    EndTxnResponse { throttle_time_ms: i32, error_code: i16 },
    FetchRequest {
        max_wait_ms: i32,
        min_bytes: i32,
        max_bytes: Option<i32>,
        isolation_level: Option<i8>,
        topics: Option<Vec<FetchTopic>>,
    },
    FetchResponse {
        throttle_time_ms: Option<i32>,
        error_code: Option<i16>,
        session_id: Option<i32>,
        responses: Option<Vec<FetchTopicResponse>>,
    },
    FindCoordinatorRequest {
        key: Option<String>,
        key_type: Option<i8>,
        coordinator_keys: Option<Vec<String>>,
    },
    FindCoordinatorResponse {
        throttle_time_ms: Option<i32>,
        error_code: Option<i16>,
        node_id: Option<i32>,
        host: Option<String>,
        port: Option<i32>,
        coordinators: Option<Vec<CoordinatorResult>>,
    },
    GetTelemetrySubscriptionsRequest { client_instance_id: u128 },
    GetTelemetrySubscriptionsResponse {
        throttle_time_ms: i32,
        client_instance_id: u128,
        subscription_id: i32,
        push_interval_ms: i32,
        requested_metrics: Vec<String>,
    },
    HeartbeatRequest {
        group_id: String,
        generation_id: i32,
        member_id: String,
        group_instance_id: Option<String>,
    },
    HeartbeatResponse { throttle_time_ms: Option<i32>, error_code: i16 },
    InitProducerIdRequest {
        transactional_id: Option<String>,
        transaction_timeout_ms: i32,
        producer_id: Option<i64>,
        producer_epoch: Option<i16>,
    },
    InitProducerIdResponse {
        throttle_time_ms: i32,
        error_code: i16,
        producer_id: i64,
        producer_epoch: i16,
    },
    JoinGroupRequest {
        group_id: String,
        session_timeout_ms: i32,
        rebalance_timeout_ms: Option<i32>,
        member_id: String,
        group_instance_id: Option<String>,
        protocol_type: String,
        protocols: Option<Vec<JoinGroupProtocol>>,
        reason: Option<String>,
    },
    JoinGroupResponse {
        throttle_time_ms: Option<i32>,
        error_code: i16,
        generation_id: i32,
        protocol_type: Option<String>,
        protocol_name: Option<String>,
        leader: String,
        member_id: String,
        members: Option<Vec<JoinGroupMember>>,
    },
    LeaveGroupRequest {
        group_id: String,
        member_id: Option<String>,
        members: Option<Vec<MemberIdentity>>,
    },
    LeaveGroupResponse {
        throttle_time_ms: Option<i32>,
        error_code: i16,
        members: Option<Vec<MemberResponse>>,
    },
    ListGroupsRequest { states_filter: Option<Vec<String>>, types_filter: Option<Vec<String>> },
    ListGroupsResponse {
        throttle_time_ms: Option<i32>,
        error_code: i16,
        groups: Option<Vec<ListedGroup>>,
    },
    ListOffsetsRequest {
        replica_id: i32,
        isolation_level: Option<i8>,
        topics: Option<Vec<ListOffsetsTopic>>,
    },
    ListOffsetsResponse {
        throttle_time_ms: Option<i32>,
        topics: Option<Vec<ListOffsetsTopicResponse>>,
    },
    ListPartitionReassignmentsRequest {
        timeout_ms: i32,
        topics: Option<Vec<ReassignmentTopic>>,
    },
    ListPartitionReassignmentsResponse {
        throttle_time_ms: i32,
        error_code: i16,
        topics: Option<Vec<ReassignmentTopic>>,
    },
    MetadataRequest {
        topics: Option<Vec<MetadataTopic>>,
        allow_auto_topic_creation: Option<bool>,
        include_cluster_authorized_operations: Option<bool>,
        include_topic_authorized_operations: Option<bool>,
    },
    MetadataResponse {
        throttle_time_ms: Option<i32>,
        brokers: Option<Vec<BrokerNode>>,
        cluster_id: Option<String>,
        controller_id: Option<i32>,
        topics: Option<Vec<MetadataTopicResponse>>,
    },
    OffsetCommitRequest {
        group_id: String,
        generation_id_or_member_epoch: Option<i32>,
        member_id: Option<String>,
        group_instance_id: Option<String>,
        retention_time_ms: Option<i64>,
        topics: Option<Vec<OffsetCommitTopic>>,
    },
    OffsetCommitResponse {
        throttle_time_ms: Option<i32>,
        topics: Option<Vec<OffsetCommitTopicResponse>>,
    },
    OffsetFetchRequest {
        group_id: Option<String>,
        topics: Option<Vec<OffsetFetchTopic>>,
        groups: Option<Vec<OffsetFetchGroup>>,
        require_stable: Option<bool>,
    },
    OffsetFetchResponse {
        throttle_time_ms: Option<i32>,
        topics: Option<Vec<OffsetFetchTopicResponse>>,
        error_code: Option<i16>,
        groups: Option<Vec<OffsetFetchGroupResult>>,
    },
    ProduceRequest {
        transactional_id: Option<String>,
        acks: i16,
        timeout_ms: i32,
        topic_data: Option<Vec<TopicProduceData>>,
    },
    ProduceResponse {
        responses: Option<Vec<TopicProduceResponse>>,
        throttle_time_ms: Option<i32>,
        node_endpoints: Option<Vec<NodeEndpoint>>,
    },
    SyncGroupRequest {
        group_id: String,
        generation_id: i32,
        member_id: String,
        group_instance_id: Option<String>,
        protocol_type: Option<String>,
        protocol_name: Option<String>,
        assignments: Option<Vec<SyncGroupAssignment>>,
    },
    SyncGroupResponse {
        throttle_time_ms: Option<i32>,
        error_code: i16,
        protocol_type: Option<String>,
        protocol_name: Option<String>,
        assignment: Vec<u8>,
    },
    TxnOffsetCommitRequest {
        transactional_id: String,
        group_id: String,
        producer_id: i64,
        producer_epoch: i16,
        generation_id: Option<i32>,
        member_id: Option<String>,
        group_instance_id: Option<String>,
        topics: Option<Vec<TxnOffsetCommitTopic>>,
    },
    TxnOffsetCommitResponse {
        throttle_time_ms: i32,
        topics: Option<Vec<TxnOffsetCommitTopicResponse>>,
    },
}

/// The API a body belongs to.
pub open spec fn api_key_of(b: &Body) -> i16 {
    match b {
        Body::AddOffsetsToTxnRequest { .. } => API_ADD_OFFSETS_TO_TXN,
        Body::AddOffsetsToTxnResponse { .. } => API_ADD_OFFSETS_TO_TXN,
        Body::AddPartitionsToTxnRequest { .. } => API_ADD_PARTITIONS_TO_TXN,
        Body::AddPartitionsToTxnResponse { .. } => API_ADD_PARTITIONS_TO_TXN,
        Body::ApiVersionsRequest { .. } => API_API_VERSIONS,
        Body::ApiVersionsResponse { .. } => API_API_VERSIONS,
        Body::ConsumerGroupDescribeRequest { .. } => API_CONSUMER_GROUP_DESCRIBE,
        Body::ConsumerGroupDescribeResponse { .. } => API_CONSUMER_GROUP_DESCRIBE,
        Body::CreateTopicsRequest { .. } => API_CREATE_TOPICS,
        Body::CreateTopicsResponse { .. } => API_CREATE_TOPICS,
        Body::DeleteGroupsRequest { .. } => API_DELETE_GROUPS,
        Body::DeleteGroupsResponse { .. } => API_DELETE_GROUPS,
        Body::DeleteRecordsRequest { .. } => API_DELETE_RECORDS,
        Body::DeleteRecordsResponse { .. } => API_DELETE_RECORDS,
        Body::DeleteTopicsRequest { .. } => API_DELETE_TOPICS,
        Body::DeleteTopicsResponse { .. } => API_DELETE_TOPICS,
        Body::DescribeClusterRequest { .. } => API_DESCRIBE_CLUSTER,
        Body::DescribeClusterResponse { .. } => API_DESCRIBE_CLUSTER,
        Body::DescribeConfigsRequest { .. } => API_DESCRIBE_CONFIGS,
        Body::DescribeConfigsResponse { .. } => API_DESCRIBE_CONFIGS,
        Body::DescribeGroupsRequest { .. } => API_DESCRIBE_GROUPS,
        Body::DescribeGroupsResponse { .. } => API_DESCRIBE_GROUPS,
        Body::EndTxnRequest { .. } => API_END_TXN,
        Body::EndTxnResponse { .. } => API_END_TXN,
        Body::FetchRequest { .. } => API_FETCH,
        Body::FetchResponse { .. } => API_FETCH,
        Body::FindCoordinatorRequest { .. } => API_FIND_COORDINATOR,
        Body::FindCoordinatorResponse { .. } => API_FIND_COORDINATOR,
        Body::GetTelemetrySubscriptionsRequest { .. } => API_GET_TELEMETRY_SUBSCRIPTIONS,
        Body::GetTelemetrySubscriptionsResponse { .. } => API_GET_TELEMETRY_SUBSCRIPTIONS,
        Body::HeartbeatRequest { .. } => API_HEARTBEAT,
        Body::HeartbeatResponse { .. } => API_HEARTBEAT,
        Body::InitProducerIdRequest { .. } => API_INIT_PRODUCER_ID,
        Body::InitProducerIdResponse { .. } => API_INIT_PRODUCER_ID,
        Body::JoinGroupRequest { .. } => API_JOIN_GROUP,
        Body::JoinGroupResponse { .. } => API_JOIN_GROUP,
        Body::LeaveGroupRequest { .. } => API_LEAVE_GROUP,
        Body::LeaveGroupResponse { .. } => API_LEAVE_GROUP,
        Body::ListGroupsRequest { .. } => API_LIST_GROUPS,
        Body::ListGroupsResponse { .. } => API_LIST_GROUPS,
        Body::ListOffsetsRequest { .. } => API_LIST_OFFSETS,
        Body::ListOffsetsResponse { .. } => API_LIST_OFFSETS,
        Body::ListPartitionReassignmentsRequest { .. } => API_LIST_PARTITION_REASSIGNMENTS,
        Body::ListPartitionReassignmentsResponse { .. } => API_LIST_PARTITION_REASSIGNMENTS,
        Body::MetadataRequest { .. } => API_METADATA,
        Body::MetadataResponse { .. } => API_METADATA,
        Body::OffsetCommitRequest { .. } => API_OFFSET_COMMIT,
        Body::OffsetCommitResponse { .. } => API_OFFSET_COMMIT,
        Body::OffsetFetchRequest { .. } => API_OFFSET_FETCH,
        Body::OffsetFetchResponse { .. } => API_OFFSET_FETCH,
        Body::ProduceRequest { .. } => API_PRODUCE,
        Body::ProduceResponse { .. } => API_PRODUCE,
        Body::SyncGroupRequest { .. } => API_SYNC_GROUP,
        Body::SyncGroupResponse { .. } => API_SYNC_GROUP,
        Body::TxnOffsetCommitRequest { .. } => API_TXN_OFFSET_COMMIT,
        Body::TxnOffsetCommitResponse { .. } => API_TXN_OFFSET_COMMIT,
    }
}

/// Whether a body travels client-to-broker.
pub open spec fn is_request(b: &Body) -> bool {
    match b {
        Body::AddOffsetsToTxnRequest { .. } => true,
        Body::AddPartitionsToTxnRequest { .. } => true,
        Body::ApiVersionsRequest { .. } => true,
        Body::ConsumerGroupDescribeRequest { .. } => true,
        Body::CreateTopicsRequest { .. } => true,
        Body::DeleteGroupsRequest { .. } => true,
        Body::DeleteRecordsRequest { .. } => true,
        Body::DeleteTopicsRequest { .. } => true,
        Body::DescribeClusterRequest { .. } => true,
        Body::DescribeConfigsRequest { .. } => true,
        Body::DescribeGroupsRequest { .. } => true,
        Body::EndTxnRequest { .. } => true,
        Body::FetchRequest { .. } => true,
        Body::FindCoordinatorRequest { .. } => true,
        Body::GetTelemetrySubscriptionsRequest { .. } => true,
        Body::HeartbeatRequest { .. } => true,
        Body::InitProducerIdRequest { .. } => true,
        Body::JoinGroupRequest { .. } => true,
        Body::LeaveGroupRequest { .. } => true,
        Body::ListGroupsRequest { .. } => true,
        Body::ListOffsetsRequest { .. } => true,
        Body::ListPartitionReassignmentsRequest { .. } => true,
        Body::MetadataRequest { .. } => true,
        Body::OffsetCommitRequest { .. } => true,
        Body::OffsetFetchRequest { .. } => true,
        Body::ProduceRequest { .. } => true,
        Body::SyncGroupRequest { .. } => true,
        Body::TxnOffsetCommitRequest { .. } => true,
        _ => false,
    }
}

/// Whether a body travels broker-to-client.
pub open spec fn is_response(b: &Body) -> bool {
    !is_request(b)
}

/// The span name of each request, `"request"` for anything else.
pub open spec fn span_name_of(b: &Body) -> Seq<char> {
    match b {
        Body::AddOffsetsToTxnRequest { .. } => "add_offsets_to_txn"@,
        Body::AddPartitionsToTxnRequest { .. } => "add_partitions_to_txn"@,
        Body::ApiVersionsRequest { .. } => "api_versions"@,
        Body::ConsumerGroupDescribeRequest { .. } => "consumer_group_describe"@,
        Body::CreateTopicsRequest { .. } => "create_topics"@,
        Body::DeleteGroupsRequest { .. } => "delete_groups"@,
        Body::DeleteRecordsRequest { .. } => "delete_records"@,
        Body::DeleteTopicsRequest { .. } => "delete_topics"@,
        Body::DescribeClusterRequest { .. } => "describe_cluster"@,
        Body::DescribeConfigsRequest { .. } => "describe_configs"@,
        Body::DescribeGroupsRequest { .. } => "describe_groups"@,
        Body::EndTxnRequest { .. } => "end_txn"@,
        Body::FetchRequest { .. } => "fetch"@,
        Body::FindCoordinatorRequest { .. } => "find_coordinator"@,
        Body::GetTelemetrySubscriptionsRequest { .. } => "get_telemetry_subscriptions"@,
        Body::HeartbeatRequest { .. } => "heartbeat"@,
        Body::InitProducerIdRequest { .. } => "init_producer_id"@,
        Body::JoinGroupRequest { .. } => "join_group"@,
        Body::LeaveGroupRequest { .. } => "leave_group"@,
        Body::ListGroupsRequest { .. } => "list_groups"@,
        Body::ListOffsetsRequest { .. } => "list_offsets"@,
        Body::ListPartitionReassignmentsRequest { .. } => "list_partition_reassignments"@,
        Body::MetadataRequest { .. } => "metadata"@,
        Body::OffsetCommitRequest { .. } => "offset_commit"@,
        Body::OffsetFetchRequest { .. } => "offset_fetch"@,
        Body::ProduceRequest { .. } => "produce"@,
        Body::SyncGroupRequest { .. } => "sync_group"@,
        Body::TxnOffsetCommitRequest { .. } => "txn_offset_commit"@,
        _ => "request"@,
    }
}

impl Body {
    /// The API a body belongs to.
    pub fn api_key(&self) -> (r: i16)
        ensures
            r == api_key_of(self),
    {
        match self {
            Body::AddOffsetsToTxnRequest { .. } => API_ADD_OFFSETS_TO_TXN,
            Body::AddOffsetsToTxnResponse { .. } => API_ADD_OFFSETS_TO_TXN,
            Body::AddPartitionsToTxnRequest { .. } => API_ADD_PARTITIONS_TO_TXN,
            Body::AddPartitionsToTxnResponse { .. } => API_ADD_PARTITIONS_TO_TXN,
            Body::ApiVersionsRequest { .. } => API_API_VERSIONS,
            Body::ApiVersionsResponse { .. } => API_API_VERSIONS,
            Body::ConsumerGroupDescribeRequest { .. } => API_CONSUMER_GROUP_DESCRIBE,
            Body::ConsumerGroupDescribeResponse { .. } => API_CONSUMER_GROUP_DESCRIBE,
            Body::CreateTopicsRequest { .. } => API_CREATE_TOPICS,
            Body::CreateTopicsResponse { .. } => API_CREATE_TOPICS,
            Body::DeleteGroupsRequest { .. } => API_DELETE_GROUPS,
            Body::DeleteGroupsResponse { .. } => API_DELETE_GROUPS,
            Body::DeleteRecordsRequest { .. } => API_DELETE_RECORDS,
            Body::DeleteRecordsResponse { .. } => API_DELETE_RECORDS,
            Body::DeleteTopicsRequest { .. } => API_DELETE_TOPICS,
            Body::DeleteTopicsResponse { .. } => API_DELETE_TOPICS,
            Body::DescribeClusterRequest { .. } => API_DESCRIBE_CLUSTER,
            Body::DescribeClusterResponse { .. } => API_DESCRIBE_CLUSTER,
            Body::DescribeConfigsRequest { .. } => API_DESCRIBE_CONFIGS,
            Body::DescribeConfigsResponse { .. } => API_DESCRIBE_CONFIGS,
            Body::DescribeGroupsRequest { .. } => API_DESCRIBE_GROUPS,
            Body::DescribeGroupsResponse { .. } => API_DESCRIBE_GROUPS,
            Body::EndTxnRequest { .. } => API_END_TXN,
            Body::EndTxnResponse { .. } => API_END_TXN,
            Body::FetchRequest { .. } => API_FETCH,
            Body::FetchResponse { .. } => API_FETCH,
            Body::FindCoordinatorRequest { .. } => API_FIND_COORDINATOR,
            Body::FindCoordinatorResponse { .. } => API_FIND_COORDINATOR,
            Body::GetTelemetrySubscriptionsRequest { .. } => API_GET_TELEMETRY_SUBSCRIPTIONS,
            Body::GetTelemetrySubscriptionsResponse { .. } => API_GET_TELEMETRY_SUBSCRIPTIONS,
            Body::HeartbeatRequest { .. } => API_HEARTBEAT,
            Body::HeartbeatResponse { .. } => API_HEARTBEAT,
            Body::InitProducerIdRequest { .. } => API_INIT_PRODUCER_ID,
            Body::InitProducerIdResponse { .. } => API_INIT_PRODUCER_ID,
            Body::JoinGroupRequest { .. } => API_JOIN_GROUP,
            Body::JoinGroupResponse { .. } => API_JOIN_GROUP,
            Body::LeaveGroupRequest { .. } => API_LEAVE_GROUP,
            Body::LeaveGroupResponse { .. } => API_LEAVE_GROUP,
            Body::ListGroupsRequest { .. } => API_LIST_GROUPS,
            Body::ListGroupsResponse { .. } => API_LIST_GROUPS,
            Body::ListOffsetsRequest { .. } => API_LIST_OFFSETS,
            Body::ListOffsetsResponse { .. } => API_LIST_OFFSETS,
            Body::ListPartitionReassignmentsRequest { .. } => API_LIST_PARTITION_REASSIGNMENTS,
            Body::ListPartitionReassignmentsResponse { .. } => API_LIST_PARTITION_REASSIGNMENTS,
            Body::MetadataRequest { .. } => API_METADATA,
            Body::MetadataResponse { .. } => API_METADATA,
            Body::OffsetCommitRequest { .. } => API_OFFSET_COMMIT,
            Body::OffsetCommitResponse { .. } => API_OFFSET_COMMIT,
            Body::OffsetFetchRequest { .. } => API_OFFSET_FETCH,
            Body::OffsetFetchResponse { .. } => API_OFFSET_FETCH,
            Body::ProduceRequest { .. } => API_PRODUCE,
            Body::ProduceResponse { .. } => API_PRODUCE,
            Body::SyncGroupRequest { .. } => API_SYNC_GROUP,
            Body::SyncGroupResponse { .. } => API_SYNC_GROUP,
            Body::TxnOffsetCommitRequest { .. } => API_TXN_OFFSET_COMMIT,
            Body::TxnOffsetCommitResponse { .. } => API_TXN_OFFSET_COMMIT,
        }
    }
}

/// Every response this broker builds reports no throttling: the
/// `throttle_time_ms` field is echoed as zero wherever the API carries it.
pub open spec fn throttle_is_zero(b: &Body) -> bool {
    match b {
        Body::AddOffsetsToTxnResponse { throttle_time_ms, .. } => *throttle_time_ms == 0,
        Body::AddPartitionsToTxnResponse { throttle_time_ms, .. } => *throttle_time_ms == 0,
        Body::ApiVersionsResponse { throttle_time_ms, .. } => *throttle_time_ms == 0,
        Body::ConsumerGroupDescribeResponse { throttle_time_ms, .. } => *throttle_time_ms == 0,
        Body::CreateTopicsResponse { throttle_time_ms, .. } => *throttle_time_ms == Some(0i32),
        Body::DeleteGroupsResponse { throttle_time_ms, .. } => *throttle_time_ms == 0,
        Body::DeleteRecordsResponse { throttle_time_ms, .. } => *throttle_time_ms == 0,
        Body::DeleteTopicsResponse { throttle_time_ms, .. } => *throttle_time_ms == Some(0i32),
        Body::DescribeClusterResponse { throttle_time_ms, .. } => *throttle_time_ms == 0,
        Body::DescribeConfigsResponse { throttle_time_ms, .. } => *throttle_time_ms == 0,
        Body::DescribeGroupsResponse { throttle_time_ms, .. } => *throttle_time_ms == Some(
            0i32,
        ),
        Body::EndTxnResponse { throttle_time_ms, .. } => *throttle_time_ms == 0,
        Body::FetchResponse { throttle_time_ms, .. } => *throttle_time_ms == Some(0i32),
        Body::FindCoordinatorResponse { throttle_time_ms, .. } => *throttle_time_ms == Some(
            0i32,
        ),
        Body::GetTelemetrySubscriptionsResponse { throttle_time_ms, .. } => *throttle_time_ms
            == 0,
        Body::HeartbeatResponse { throttle_time_ms, .. } => *throttle_time_ms == Some(0i32),
        Body::InitProducerIdResponse { throttle_time_ms, .. } => *throttle_time_ms == 0,
        Body::JoinGroupResponse { throttle_time_ms, .. } => *throttle_time_ms == Some(0i32),
        Body::LeaveGroupResponse { throttle_time_ms, .. } => *throttle_time_ms == Some(0i32),
        Body::ListGroupsResponse { throttle_time_ms, .. } => *throttle_time_ms == Some(0i32),
        Body::ListOffsetsResponse { throttle_time_ms, .. } => *throttle_time_ms == Some(0i32),
        Body::ListPartitionReassignmentsResponse { throttle_time_ms, .. } => *throttle_time_ms
            == 0,
        Body::MetadataResponse { throttle_time_ms, .. } => *throttle_time_ms == Some(0i32),
        Body::OffsetCommitResponse { throttle_time_ms, .. } => *throttle_time_ms == Some(0i32),
        Body::OffsetFetchResponse { throttle_time_ms, .. } => *throttle_time_ms == Some(0i32),
        Body::ProduceResponse { throttle_time_ms, .. } => *throttle_time_ms == Some(0i32),
        Body::SyncGroupResponse { throttle_time_ms, .. } => *throttle_time_ms == Some(0i32),
        Body::TxnOffsetCommitResponse { throttle_time_ms, .. } => *throttle_time_ms == 0,
        _ => true,
    }
}

// ===== the ApiVersions response body =====

/// One row of the version table in wire order.
pub open spec fn api_version_range_enc(r: ApiVersionRange) -> Seq<u8> {
    i16_enc(r.api_key) + i16_enc(r.min_version) + i16_enc(r.max_version)
}

/// The rows one after the other.
pub open spec fn api_version_ranges_cat(rs: Seq<ApiVersionRange>) -> Seq<u8>
    decreases rs.len(),
{
    if rs.len() == 0 {
        Seq::empty()
    } else {
        api_version_range_enc(rs[0]) + api_version_ranges_cat(rs.skip(1))
    }
}

/// The legacy (pre-flexible) wire form of an `ApiVersions` response body:
/// the error code, the count-prefixed version table, and — from version 1
/// on — the throttle time.
pub open spec fn api_versions_response_enc(
    error_code: i16,
    ranges: Seq<ApiVersionRange>,
    throttle_time_ms: i32,
    api_version: i16,
) -> Seq<u8> {
    i16_enc(error_code) + i32_enc(ranges.len() as i32) + api_version_ranges_cat(ranges) + (
    if api_version >= 1 {
        i32_enc(throttle_time_ms)
    } else {
        Seq::empty()
    })
}

proof fn lemma_ranges_cat_concat(a: Seq<ApiVersionRange>, b: Seq<ApiVersionRange>)
    ensures
        api_version_ranges_cat(a + b) == api_version_ranges_cat(a) + api_version_ranges_cat(b),
    decreases a.len(),
{
    if a.len() == 0 {
        assert(a + b =~= b);
        assert(api_version_ranges_cat(a) + api_version_ranges_cat(b) =~= api_version_ranges_cat(
            b,
        ));
    } else {
        assert((a + b).skip(1) =~= a.skip(1) + b);
        lemma_ranges_cat_concat(a.skip(1), b);
        assert(api_version_ranges_cat(a + b) =~= api_version_ranges_cat(a)
            + api_version_ranges_cat(b));
    }
}

proof fn lemma_ranges_cat_one(r: ApiVersionRange)
    ensures
        api_version_ranges_cat(seq![r]) == api_version_range_enc(r),
{
    assert(seq![r].skip(1) =~= Seq::<ApiVersionRange>::empty());
    assert(api_version_ranges_cat(Seq::<ApiVersionRange>::empty()) =~= Seq::<u8>::empty());
    assert(api_version_ranges_cat(seq![r]) =~= api_version_range_enc(r));
}

/// Appends the legacy `ApiVersions` response body.
#[verifier::rlimit(100)]
#[verifier::spinoff_prover]
pub fn encode_api_versions_response(
    out: &mut Vec<u8>,
    error_code: i16,
    ranges: &Vec<ApiVersionRange>,
    throttle_time_ms: i32,
    api_version: i16,
)
    requires
        ranges@.len() <= 0x7fff_ffff,
    ensures
        final(out)@ == old(out)@ + api_versions_response_enc(
            error_code,
            ranges.deep_view(),
            throttle_time_ms,
            api_version,
        ),
{
    let ghost base: Seq<u8> = out@;
    let ghost rv: Seq<ApiVersionRange> = ranges.deep_view();
    proof {
        assert(rv =~= ranges@);
    }
    push_i16(out, error_code);
    push_i32(out, ranges.len() as i32);
    let ghost mid: Seq<u8> = out@;
    let mut i: usize = 0;
    while i < ranges.len()
        invariant
            i <= ranges@.len(),
            rv == ranges@,
            out@ == mid + api_version_ranges_cat(rv.take(i as int)),
        decreases ranges@.len() - i,
    {
        let ghost pre: Seq<ApiVersionRange> = rv.take(i as int);
        push_i16(out, ranges[i].api_key);
        push_i16(out, ranges[i].min_version);
        push_i16(out, ranges[i].max_version);
        proof {
            assert(rv.take(i + 1) =~= pre + seq![rv[i as int]]);
            lemma_ranges_cat_concat(pre, seq![rv[i as int]]);
            lemma_ranges_cat_one(rv[i as int]);
            assert(out@ =~= mid + api_version_ranges_cat(rv.take(i + 1)));
        }
        i = i + 1;
    }
    proof {
        assert(rv.take(ranges@.len() as int) =~= rv);
    }
    if api_version >= 1 {
        push_i32(out, throttle_time_ms);
    }
    proof {
        assert(final(out)@ =~= base + api_versions_response_enc(
            error_code,
            rv,
            throttle_time_ms,
            api_version,
        ));
    }
}


/// One row of the version table in its flexible wire order: the three
/// versions, then the row's empty tagged-field section.
pub open spec fn api_version_range_flex_enc(r: ApiVersionRange) -> Seq<u8> {
    i16_enc(r.api_key) + i16_enc(r.min_version) + i16_enc(r.max_version) + uvarint_enc(0)
}

/// The rows one after the other, in flexible form.
pub open spec fn api_version_ranges_flex_cat(rs: Seq<ApiVersionRange>) -> Seq<u8>
    decreases rs.len(),
{
    if rs.len() == 0 {
        Seq::empty()
    } else {
        api_version_range_flex_enc(rs[0]) + api_version_ranges_flex_cat(rs.skip(1))
    }
}

/// The flexible (version 3) wire form of an `ApiVersions` response body:
/// the error code, the compact count-prefixed version table with a tagged
/// section per row, the throttle time, and the root tagged section.
pub open spec fn api_versions_response_flex_enc(
    error_code: i16,
    ranges: Seq<ApiVersionRange>,
    throttle_time_ms: i32,
) -> Seq<u8> {
    i16_enc(error_code) + uvarint_enc(ranges.len() + 1) + api_version_ranges_flex_cat(ranges)
        + i32_enc(throttle_time_ms) + uvarint_enc(0)
}

/// At and past the flexible boundary, the response body's array takes the
/// compact count (`len + 1` as an unsigned varint) and a tagged-field
/// section closes every row and the root; before it, the count is a fixed
/// 32-bit integer and no tagged section appears anywhere.
pub proof fn lemma_api_versions_response_flexibility(
    error_code: i16,
    ranges: Seq<ApiVersionRange>,
    throttle_time_ms: i32,
    r: ApiVersionRange,
)
    ensures
        api_version_range_flex_enc(r) == api_version_range_enc(r) + tagged_section_enc(
            Seq::<TaggedFieldV>::empty(),
        ),
        api_versions_response_flex_enc(error_code, ranges, throttle_time_ms) == i16_enc(
            error_code,
        ) + uvarint_enc(ranges.len() + 1) + api_version_ranges_flex_cat(ranges) + i32_enc(
            throttle_time_ms,
        ) + tagged_section_enc(Seq::<TaggedFieldV>::empty()),
        api_versions_response_enc(error_code, ranges, throttle_time_ms, 1) == i16_enc(
            error_code,
        ) + i32_enc(ranges.len() as i32) + api_version_ranges_cat(ranges) + i32_enc(
            throttle_time_ms,
        ),
{
    assert(tagged_section_enc(Seq::<TaggedFieldV>::empty()) =~= uvarint_enc(0));
    assert(api_version_range_flex_enc(r) =~= api_version_range_enc(r) + uvarint_enc(0));
    assert(api_versions_response_flex_enc(error_code, ranges, throttle_time_ms) =~= i16_enc(
        error_code,
    ) + uvarint_enc(ranges.len() + 1) + api_version_ranges_flex_cat(ranges) + i32_enc(
        throttle_time_ms,
    ) + uvarint_enc(0));
    assert(api_versions_response_enc(error_code, ranges, throttle_time_ms, 1) =~= i16_enc(
        error_code,
    ) + i32_enc(ranges.len() as i32) + api_version_ranges_cat(ranges) + i32_enc(
        throttle_time_ms,
    ));
}

/// The legacy version table rows span six bytes each.
pub proof fn lemma_ranges_cat_len(rs: Seq<ApiVersionRange>)
    ensures
        api_version_ranges_cat(rs).len() == 6 * rs.len(),
    decreases rs.len(),
{
    if rs.len() > 0 {
        lemma_be_enc_len(u16_of_i16(rs[0].api_key), 2);
        lemma_be_enc_len(u16_of_i16(rs[0].min_version), 2);
        lemma_be_enc_len(u16_of_i16(rs[0].max_version), 2);
        lemma_ranges_cat_len(rs.skip(1));
    }
}

/// The flexible version table rows span seven bytes each.
pub proof fn lemma_ranges_flex_cat_len(rs: Seq<ApiVersionRange>)
    ensures
        api_version_ranges_flex_cat(rs).len() == 7 * rs.len(),
    decreases rs.len(),
{
    if rs.len() > 0 {
        lemma_be_enc_len(u16_of_i16(rs[0].api_key), 2);
        lemma_be_enc_len(u16_of_i16(rs[0].min_version), 2);
        lemma_be_enc_len(u16_of_i16(rs[0].max_version), 2);
        assert(uvarint_enc(0) =~= seq![0u8]);
        lemma_ranges_flex_cat_len(rs.skip(1));
    }
}

proof fn lemma_ranges_flex_cat_concat(a: Seq<ApiVersionRange>, b: Seq<ApiVersionRange>)
    ensures
        api_version_ranges_flex_cat(a + b) == api_version_ranges_flex_cat(a)
            + api_version_ranges_flex_cat(b),
    decreases a.len(),
{
    if a.len() == 0 {
        assert(a + b =~= b);
        assert(api_version_ranges_flex_cat(a) + api_version_ranges_flex_cat(b)
            =~= api_version_ranges_flex_cat(b));
    } else {
        assert((a + b).skip(1) =~= a.skip(1) + b);
        lemma_ranges_flex_cat_concat(a.skip(1), b);
        assert(api_version_ranges_flex_cat(a + b) =~= api_version_ranges_flex_cat(a)
            + api_version_ranges_flex_cat(b));
    }
}

proof fn lemma_ranges_flex_cat_one(r: ApiVersionRange)
    ensures
        api_version_ranges_flex_cat(seq![r]) == api_version_range_flex_enc(r),
{
    assert(seq![r].skip(1) =~= Seq::<ApiVersionRange>::empty());
    assert(api_version_ranges_flex_cat(Seq::<ApiVersionRange>::empty()) =~= Seq::<u8>::empty());
    assert(api_version_ranges_flex_cat(seq![r]) =~= api_version_range_flex_enc(r));
}

/// Appends the flexible (version 3) `ApiVersions` response body.
#[verifier::rlimit(100)]
#[verifier::spinoff_prover]
pub fn encode_api_versions_response_flex(
    out: &mut Vec<u8>,
    error_code: i16,
    ranges: &Vec<ApiVersionRange>,
    throttle_time_ms: i32,
)
    requires
        ranges@.len() <= 0x7fff_ffff,
    ensures
        final(out)@ == old(out)@ + api_versions_response_flex_enc(
            error_code,
            ranges.deep_view(),
            throttle_time_ms,
        ),
{
    let ghost base: Seq<u8> = out@;
    let ghost rv: Seq<ApiVersionRange> = ranges.deep_view();
    proof {
        assert(rv =~= ranges@);
    }
    push_i16(out, error_code);
    encode_uvarint64(out, ranges.len() as u64 + 1);
    let ghost mid: Seq<u8> = out@;
    let mut i: usize = 0;
    while i < ranges.len()
        invariant
            i <= ranges@.len(),
            rv == ranges@,
            out@ == mid + api_version_ranges_flex_cat(rv.take(i as int)),
        decreases ranges@.len() - i,
    {
        let ghost pre: Seq<ApiVersionRange> = rv.take(i as int);
        push_i16(out, ranges[i].api_key);
        push_i16(out, ranges[i].min_version);
        push_i16(out, ranges[i].max_version);
        encode_uvarint64(out, 0);
        proof {
            assert(rv.take(i + 1) =~= pre + seq![rv[i as int]]);
            lemma_ranges_flex_cat_concat(pre, seq![rv[i as int]]);
            lemma_ranges_flex_cat_one(rv[i as int]);
            assert(out@ =~= mid + api_version_ranges_flex_cat(rv.take(i + 1)));
        }
        i = i + 1;
    }
    proof {
        assert(rv.take(ranges@.len() as int) =~= rv);
    }
    push_i32(out, throttle_time_ms);
    encode_uvarint64(out, 0);
    proof {
        assert(final(out)@ =~= base + api_versions_response_flex_enc(
            error_code,
            rv,
            throttle_time_ms,
        ));
    }
}

// ===== the request-body schema registry =====

/// The request-body schemas this broker decodes, keyed by api_key and
/// version. This is the registry's current extent — exactly the table
/// `ApiVersions` advertises (`lemma_advertised_iff_served`); a request
/// outside it cannot be interpreted, and the connection drops as for any
/// undecodable request.
pub open spec fn body_schema_known(api_key: i16, api_version: i16) -> bool {
    ||| (api_key == API_API_VERSIONS && 0 <= api_version <= 3)
    ||| (api_key == API_HEARTBEAT && 0 <= api_version <= 1)
    ||| (api_key == API_LEAVE_GROUP && 0 <= api_version <= 1)
    ||| (api_key == API_END_TXN && 0 <= api_version <= 1)
    ||| (api_key == API_ADD_OFFSETS_TO_TXN && 0 <= api_version <= 1)
    ||| (api_key == API_INIT_PRODUCER_ID && 0 <= api_version <= 1)
    ||| (api_key == API_FIND_COORDINATOR && 0 <= api_version <= 1)
    ||| (api_key == API_LIST_GROUPS && 0 <= api_version <= 1)
    ||| (api_key == API_DELETE_GROUPS && 0 <= api_version <= 1)
    ||| (api_key == API_SYNC_GROUP && 0 <= api_version <= 1)
    ||| (api_key == API_DELETE_TOPICS && 0 <= api_version <= 1)
    ||| (api_key == API_ADD_PARTITIONS_TO_TXN && 0 <= api_version <= 1)
    ||| (api_key == API_LIST_OFFSETS && api_version == 1)
}

/// A nullable byte sequence is a string field when present bytes are
/// UTF-8.
pub open spec fn opt_valid_utf8(o: Option<Seq<u8>>) -> bool {
    match o {
        None => true,
        Some(b) => valid_utf8(b),
    }
}

/// Whether a request body decodes: its schema is in the registry and its
/// bytes parse, string fields included.
pub open spec fn request_body_decodes(api_key: i16, api_version: i16, body: Seq<u8>) -> bool {
    &&& body_schema_known(api_key, api_version)
    &&& (if api_key == API_API_VERSIONS {
        match api_versions_request_dec(body, api_version) {
            Some(p) => opt_valid_utf8(p.0) && opt_valid_utf8(p.1),
            None => false,
        }
    } else if api_key == API_HEARTBEAT {
        match crate::schema::heartbeat_request_dec(body) {
            Some(t) => valid_utf8(t.0) && valid_utf8(t.2),
            None => false,
        }
    } else if api_key == API_LEAVE_GROUP {
        match crate::schema::leave_group_request_dec(body) {
            Some(t) => valid_utf8(t.0) && valid_utf8(t.1),
            None => false,
        }
    } else if api_key == API_END_TXN {
        match crate::schema::end_txn_request_dec(body) {
            Some(t) => valid_utf8(t.0),
            None => false,
        }
    } else if api_key == API_ADD_OFFSETS_TO_TXN {
        match crate::schema::add_offsets_request_dec(body) {
            Some(t) => valid_utf8(t.0) && valid_utf8(t.3),
            None => false,
        }
    } else if api_key == API_INIT_PRODUCER_ID {
        match crate::schema::init_producer_id_request_dec(body) {
            Some(t) => opt_valid_utf8(t.0),
            None => false,
        }
    } else if api_key == API_FIND_COORDINATOR {
        match crate::schema::find_coordinator_request_dec(body, api_version) {
            Some(t) => valid_utf8(t.0),
            None => false,
        }
    } else if api_key == API_LIST_GROUPS {
        crate::schema::list_groups_request_dec(body)
    } else if api_key == API_DELETE_GROUPS {
        match crate::schema::delete_groups_request_dec(body) {
            Some(names) => crate::schema::all_sval(names),
            None => false,
        }
    } else if api_key == API_SYNC_GROUP {
        match crate::schema::sync_group_request_dec(body) {
            Some(t) => valid_utf8(t.0) && valid_utf8(t.2) && crate::schema::assignments_sval(
                t.3,
            ),
            None => false,
        }
    } else if api_key == API_DELETE_TOPICS {
        match crate::schema::delete_topics_request_dec(body) {
            Some(t) => crate::schema::all_sval(t.0),
            None => false,
        }
    } else if api_key == API_ADD_PARTITIONS_TO_TXN {
        match crate::schema::add_partitions_request_dec(body) {
            Some(t) => valid_utf8(t.0) && crate::schema::txn_topics_sval(t.3),
            None => false,
        }
    } else if api_key == API_LIST_OFFSETS {
        match crate::schema::list_offsets_request_dec(body) {
            Some(t) => crate::schema::lo_topics_sval(t.1),
            None => false,
        }
    } else {
        false
    })
}

/// The `ApiVersions` request body: empty before version 3; from version 3
/// the two compact client software strings and a tagged-field section,
/// spanning the whole body.
pub open spec fn api_versions_request_dec(s: Seq<u8>, api_version: i16) -> Option<
    (Option<Seq<u8>>, Option<Seq<u8>>),
> {
    if api_version < 3 {
        if s.len() == 0 {
            Some((None, None))
        } else {
            None
        }
    } else {
        match cstr_dec(s) {
            None => None,
            Some(n1) => match cstr_dec(s.skip(n1.1 as int)) {
                None => None,
                Some(n2) => match tagged_section_dec(s.skip(n1.1 + n2.1 as int)) {
                    None => None,
                    Some(t) => if n1.1 + n2.1 + t.1 == s.len() {
                        Some((n1.0, n2.0))
                    } else {
                        None
                    },
                },
            },
        }
    }
}

/// Reads an `ApiVersions` request body. The returned strings hold exactly
/// the decoded bytes; a string field that is not UTF-8 is malformed.
#[verifier::rlimit(100)]
#[verifier::spinoff_prover]
pub fn decode_api_versions_request(body: &[u8], api_version: i16) -> (r: Result<Body, Error>)
    ensures
        r is Ok <==> (match api_versions_request_dec(body@, api_version) {
            Some(p) => opt_valid_utf8(p.0) && opt_valid_utf8(p.1),
            None => false,
        }),
        match r {
            Ok(b) => {
                &&& api_versions_request_dec(body@, api_version) matches Some(p)
                &&& b matches Body::ApiVersionsRequest {
                    client_software_name,
                    client_software_version,
                } && (match (client_software_name, p.0) {
                    (Some(s), Some(v)) => encode_utf8(s@) == v,
                    (None, None) => true,
                    _ => false,
                }) && (match (client_software_version, p.1) {
                    (Some(s), Some(v)) => encode_utf8(s@) == v,
                    (None, None) => true,
                    _ => false,
                })
            },
            Err(e) => {
                e == Error::IncompleteFrame || e == Error::MalformedInput
            },
        },
{
    if api_version < 3 {
        if body.len() == 0 {
            return Ok(
                Body::ApiVersionsRequest {
                    client_software_name: None,
                    client_software_version: None,
                },
            );
        }
        return Err(Error::MalformedInput);
    }
    let len: usize = body.len();
    let ghost t: Seq<u8> = body@;
    proof {
        assert(t.skip(0) =~= t);
    }
    let (name_bytes, c1) = match decode_cstr(body, 0) {
        Ok(p) => p,
        Err(e) => {
            return Err(e);
        },
    };
    let (version_bytes, c2) = match decode_cstr(body, c1) {
        Ok(p) => p,
        Err(e) => {
            return Err(e);
        },
    };
    proof {
        assert(t.skip(c1 as int).skip(c2 as int) =~= t.skip(c1 + c2));
    }
    let (tags, c3) = match decode_tagged_section(body, c1 + c2) {
        Ok(p) => p,
        Err(e) => {
            return Err(e);
        },
    };
    if c1 + c2 + c3 != body.len() {
        return Err(Error::MalformedInput);
    }
    proof {
        assert(api_versions_request_dec(body@, api_version) == Some::<
            (Option<Seq<u8>>, Option<Seq<u8>>),
        >((name_bytes.deep_view(), version_bytes.deep_view())));
    }
    let client_software_name: Option<String> = match &name_bytes {
        None => None,
        Some(v) => {
            proof {
                assert(name_bytes.deep_view() == Some(v@));
            }
            match utf8_string(v) {
                Ok(s) => Some(s),
                Err(e) => {
                    proof {
                        assert(!opt_valid_utf8(name_bytes.deep_view()));
                    }
                    return Err(e);
                },
            }
        },
    };
    let client_software_version: Option<String> = match &version_bytes {
        None => None,
        Some(v) => {
            proof {
                assert(version_bytes.deep_view() == Some(v@));
            }
            match utf8_string(v) {
                Ok(s) => Some(s),
                Err(e) => {
                    proof {
                        assert(!opt_valid_utf8(version_bytes.deep_view()));
                    }
                    return Err(e);
                },
            }
        },
    };
    Ok(Body::ApiVersionsRequest { client_software_name, client_software_version })
}

/// Reads a request body by the schema registry: the decoded variant for a
/// known (api_key, api_version), `SchemaMismatch` for everything outside
/// the registry's extent.
pub fn decode_request_body(api_key: i16, api_version: i16, body: &[u8]) -> (r: Result<
    Body,
    Error,
>)
    ensures
        r is Ok <==> request_body_decodes(api_key, api_version, body@),
        !body_schema_known(api_key, api_version) ==> r == Err::<Body, Error>(
            Error::SchemaMismatch,
        ),
        match r {
            Ok(b) => body_schema_known(api_key, api_version) && is_request(&b) && api_key_of(&b)
                == api_key,
            Err(e) => {
                e == Error::SchemaMismatch || e == Error::IncompleteFrame || e
                    == Error::MalformedInput
            },
        },
{
    if api_key == API_API_VERSIONS && 0 <= api_version && api_version <= 3 {
        decode_api_versions_request(body, api_version)
    } else if api_key == API_HEARTBEAT && 0 <= api_version && api_version <= 1 {
        crate::schema::decode_heartbeat_request(body)
    } else if api_key == API_LEAVE_GROUP && 0 <= api_version && api_version <= 1 {
        crate::schema::decode_leave_group_request(body)
    } else if api_key == API_END_TXN && 0 <= api_version && api_version <= 1 {
        crate::schema::decode_end_txn_request(body)
    } else if api_key == API_ADD_OFFSETS_TO_TXN && 0 <= api_version && api_version <= 1 {
        crate::schema::decode_add_offsets_request(body)
    } else if api_key == API_INIT_PRODUCER_ID && 0 <= api_version && api_version <= 1 {
        crate::schema::decode_init_producer_id_request(body)
    } else if api_key == API_FIND_COORDINATOR && 0 <= api_version && api_version <= 1 {
        crate::schema::decode_find_coordinator_request(body, api_version)
    } else if api_key == API_LIST_GROUPS && 0 <= api_version && api_version <= 1 {
        crate::schema::decode_list_groups_request(body)
    } else if api_key == API_DELETE_GROUPS && 0 <= api_version && api_version <= 1 {
        crate::schema::decode_delete_groups_request(body)
    } else if api_key == API_SYNC_GROUP && 0 <= api_version && api_version <= 1 {
        crate::schema::decode_sync_group_request(body)
    } else if api_key == API_DELETE_TOPICS && 0 <= api_version && api_version <= 1 {
        crate::schema::decode_delete_topics_request(body)
    } else if api_key == API_ADD_PARTITIONS_TO_TXN && 0 <= api_version && api_version <= 1 {
        crate::schema::decode_add_partitions_request(body)
    } else if api_key == API_LIST_OFFSETS && api_version == 1 {
        crate::schema::decode_list_offsets_request(body)
    } else {
        Err(Error::SchemaMismatch)
    }
}

/// The response bodies this broker can put on the wire, matching the
/// request windows of `body_schema_known`.
pub open spec fn response_encodable(b: &Body, api_version: i16) -> bool {
    match b {
        Body::ApiVersionsResponse { .. } => 0 <= api_version <= 3,
        Body::HeartbeatResponse { .. } => 0 <= api_version <= 1,
        Body::LeaveGroupResponse { .. } => 0 <= api_version <= 1,
        Body::EndTxnResponse { .. } => 0 <= api_version <= 1,
        Body::AddOffsetsToTxnResponse { .. } => 0 <= api_version <= 1,
        Body::InitProducerIdResponse { .. } => 0 <= api_version <= 1,
        Body::FindCoordinatorResponse { .. } => 0 <= api_version <= 1,
        Body::ListGroupsResponse { .. } => 0 <= api_version <= 1,
        Body::DeleteGroupsResponse { .. } => 0 <= api_version <= 1,
        Body::SyncGroupResponse { .. } => 0 <= api_version <= 1,
        Body::DeleteTopicsResponse { .. } => 0 <= api_version <= 1,
        Body::AddPartitionsToTxnResponse { .. } => 0 <= api_version <= 1,
        Body::ListOffsetsResponse { .. } => api_version == 1,
        _ => false,
    }
}

/// Whether a response's own content fits the wire forms of its version:
/// strings and arrays inside their legacy length prefixes.
pub open spec fn response_fits(b: &Body, api_version: i16) -> bool {
    match b {
        Body::FindCoordinatorResponse { host, .. } => encode_utf8(
            (match host {
                Some(h) => h@,
                None => Seq::empty(),
            }),
        ).len() <= crate::frame::MAX_LEGACY_STR,
        Body::ListGroupsResponse { groups, .. } => crate::schema::listed_groups_fit(
            (match groups {
                Some(gs) => gs@,
                None => Seq::empty(),
            }),
        ),
        Body::DeleteGroupsResponse { results, .. } => crate::schema::deletable_groups_fit(
            (match results {
                Some(rs) => rs@,
                None => Seq::empty(),
            }),
        ),
        Body::SyncGroupResponse { assignment, .. } => assignment@.len() <= 0x7fff_ffff,
        Body::DeleteTopicsResponse { responses, .. } => crate::schema::deletable_topics_fit(
            (match responses {
                Some(rs) => rs@,
                None => Seq::empty(),
            }),
        ),
        Body::AddPartitionsToTxnResponse { results, .. } => crate::schema::txn_topic_results_fit(
            results@,
        ),
        Body::ListOffsetsResponse { topics, .. } => crate::schema::lo_topic_results_fit(
            (match topics {
                Some(ts) => ts@,
                None => Seq::empty(),
            }),
        ),
        _ => true,
    }
}

/// The wire form of each encodable response body at a version.
pub open spec fn response_body_enc(b: &Body, api_version: i16) -> Seq<u8> {
    match b {
        Body::ApiVersionsResponse { error_code, api_keys, throttle_time_ms } => if api_version
            >= 3 {
            api_versions_response_flex_enc(*error_code, api_keys.deep_view(), *throttle_time_ms)
        } else {
            api_versions_response_enc(
                *error_code,
                api_keys.deep_view(),
                *throttle_time_ms,
                api_version,
            )
        },
        Body::HeartbeatResponse { throttle_time_ms, error_code } => crate::schema::heartbeat_response_enc(
            (match throttle_time_ms {
                Some(t) => *t,
                None => 0,
            }),
            *error_code,
            api_version,
        ),
        Body::LeaveGroupResponse { throttle_time_ms, error_code, .. } => crate::schema::leave_group_response_enc(
            (match throttle_time_ms {
                Some(t) => *t,
                None => 0,
            }),
            *error_code,
            api_version,
        ),
        Body::EndTxnResponse { throttle_time_ms, error_code } => crate::schema::txn_result_response_enc(
            *throttle_time_ms,
            *error_code,
        ),
        Body::AddOffsetsToTxnResponse { throttle_time_ms, error_code } => crate::schema::txn_result_response_enc(
            *throttle_time_ms,
            *error_code,
        ),
        Body::InitProducerIdResponse {
            throttle_time_ms,
            error_code,
            producer_id,
            producer_epoch,
        } => crate::schema::init_producer_id_response_enc(
            *throttle_time_ms,
            *error_code,
            *producer_id,
            *producer_epoch,
        ),
        Body::FindCoordinatorResponse { throttle_time_ms, error_code, node_id, host, port, .. } => crate::schema::find_coordinator_response_enc(
            (match throttle_time_ms {
                Some(t) => *t,
                None => 0,
            }),
            (match error_code {
                Some(c) => *c,
                None => 0,
            }),
            (match node_id {
                Some(n) => *n,
                None => -1i32,
            }),
            (match host {
                Some(h) => h@,
                None => Seq::empty(),
            }),
            (match port {
                Some(p) => *p,
                None => -1i32,
            }),
            api_version,
        ),
        Body::ListGroupsResponse { throttle_time_ms, error_code, groups } => crate::schema::list_groups_response_enc(
            (match throttle_time_ms {
                Some(t) => *t,
                None => 0,
            }),
            *error_code,
            (match groups {
                Some(gs) => gs@,
                None => Seq::empty(),
            }),
            api_version,
        ),
        Body::DeleteGroupsResponse { throttle_time_ms, results } => crate::schema::delete_groups_response_enc(
            *throttle_time_ms,
            (match results {
                Some(rs) => rs@,
                None => Seq::empty(),
            }),
        ),
        Body::SyncGroupResponse { throttle_time_ms, error_code, assignment, .. } => crate::schema::sync_group_response_enc(
            (match throttle_time_ms {
                Some(t) => *t,
                None => 0,
            }),
            *error_code,
            assignment@,
            api_version,
        ),
        Body::DeleteTopicsResponse { throttle_time_ms, responses } => crate::schema::delete_topics_response_enc(
            (match throttle_time_ms {
                Some(t) => *t,
                None => 0,
            }),
            (match responses {
                Some(rs) => rs@,
                None => Seq::empty(),
            }),
            api_version,
        ),
        Body::AddPartitionsToTxnResponse { throttle_time_ms, results } => crate::schema::add_partitions_response_enc(
            *throttle_time_ms,
            results@,
        ),
        Body::ListOffsetsResponse { topics, .. } => crate::schema::list_offsets_response_body_enc(
            (match topics {
                Some(ts) => ts@,
                None => Seq::empty(),
            }),
        ),
        _ => Seq::empty(),
    }
}

/// Appends a response body by the schema registry: the version-appropriate
/// wire form for a known API, `SchemaMismatch` for everything outside the
/// registry's extent, with nothing written.
pub fn encode_response_body(out: &mut Vec<u8>, body: &Body, api_version: i16) -> (r: Result<
    (),
    Error,
>)
    requires
        (match body {
            Body::ApiVersionsResponse { api_keys, .. } => api_keys@.len() <= 0x7fff_ffff,
            _ => true,
        }),
    ensures
        r is Ok <==> response_encodable(body, api_version) && response_fits(body, api_version),
        r is Err ==> (r == Err::<(), Error>(Error::SchemaMismatch) || r == Err::<(), Error>(
            Error::MalformedInput,
        )),
        r is Ok ==> final(out)@ == old(out)@ + response_body_enc(body, api_version),
{
    match body {
        Body::ApiVersionsResponse { error_code, api_keys, throttle_time_ms } => {
            if api_version < 0 || api_version > 3 {
                return Err(Error::SchemaMismatch);
            }
            if api_version >= 3 {
                encode_api_versions_response_flex(out, *error_code, api_keys, *throttle_time_ms);
            } else {
                encode_api_versions_response(
                    out,
                    *error_code,
                    api_keys,
                    *throttle_time_ms,
                    api_version,
                );
            }
            Ok(())
        },
        Body::HeartbeatResponse { throttle_time_ms, error_code } => {
            if api_version < 0 || api_version > 1 {
                return Err(Error::SchemaMismatch);
            }
            let throttle: i32 = match throttle_time_ms {
                Some(t) => *t,
                None => 0,
            };
            crate::schema::encode_heartbeat_response(out, throttle, *error_code, api_version);
            Ok(())
        },
        Body::LeaveGroupResponse { throttle_time_ms, error_code, .. } => {
            if api_version < 0 || api_version > 1 {
                return Err(Error::SchemaMismatch);
            }
            let throttle: i32 = match throttle_time_ms {
                Some(t) => *t,
                None => 0,
            };
            crate::schema::encode_leave_group_response(out, throttle, *error_code, api_version);
            Ok(())
        },
        Body::EndTxnResponse { throttle_time_ms, error_code } => {
            if api_version < 0 || api_version > 1 {
                return Err(Error::SchemaMismatch);
            }
            crate::schema::encode_txn_result_response(out, *throttle_time_ms, *error_code);
            Ok(())
        },
        Body::AddOffsetsToTxnResponse { throttle_time_ms, error_code } => {
            if api_version < 0 || api_version > 1 {
                return Err(Error::SchemaMismatch);
            }
            crate::schema::encode_txn_result_response(out, *throttle_time_ms, *error_code);
            Ok(())
        },
        Body::InitProducerIdResponse {
            throttle_time_ms,
            error_code,
            producer_id,
            producer_epoch,
        } => {
            if api_version < 0 || api_version > 1 {
                return Err(Error::SchemaMismatch);
            }
            crate::schema::encode_init_producer_id_response(
                out,
                *throttle_time_ms,
                *error_code,
                *producer_id,
                *producer_epoch,
            );
            Ok(())
        },
        Body::FindCoordinatorResponse { throttle_time_ms, error_code, node_id, host, port, .. } => {
            if api_version < 0 || api_version > 1 {
                return Err(Error::SchemaMismatch);
            }
            let throttle: i32 = match throttle_time_ms {
                Some(t) => *t,
                None => 0,
            };
            let code: i16 = match error_code {
                Some(c) => *c,
                None => 0,
            };
            let node: i32 = match node_id {
                Some(n) => *n,
                None => -1,
            };
            let p: i32 = match port {
                Some(p) => *p,
                None => -1,
            };
            let empty: String = String::from_str("");
            let h: &String = match host {
                Some(h) => h,
                None => &empty,
            };
            proof {
                reveal_strlit("");
                assert(empty@ =~= Seq::<char>::empty());
                assert(encode_utf8(Seq::<char>::empty()) =~= Seq::<u8>::empty());
            }
            if h.as_str().as_bytes().len() > crate::frame::MAX_LEGACY_STR {
                return Err(Error::MalformedInput);
            }
            crate::schema::encode_find_coordinator_response(
                out,
                throttle,
                code,
                node,
                h,
                p,
                api_version,
            );
            Ok(())
        },
        Body::ListGroupsResponse { throttle_time_ms, error_code, groups } => {
            if api_version < 0 || api_version > 1 {
                return Err(Error::SchemaMismatch);
            }
            let throttle: i32 = match throttle_time_ms {
                Some(t) => *t,
                None => 0,
            };
            let empty_groups: Vec<ListedGroup> = Vec::new();
            let gs: &Vec<ListedGroup> = match groups {
                Some(gs) => gs,
                None => &empty_groups,
            };
            proof {
                assert(empty_groups@ =~= Seq::<ListedGroup>::empty());
            }
            if !crate::schema::listed_groups_fit_check(gs) {
                return Err(Error::MalformedInput);
            }
            crate::schema::encode_list_groups_response(
                out,
                throttle,
                *error_code,
                gs,
                api_version,
            );
            Ok(())
        },
        Body::DeleteGroupsResponse { throttle_time_ms, results } => {
            if api_version < 0 || api_version > 1 {
                return Err(Error::SchemaMismatch);
            }
            let empty_results: Vec<DeletableGroupResult> = Vec::new();
            let rs: &Vec<DeletableGroupResult> = match results {
                Some(rs) => rs,
                None => &empty_results,
            };
            proof {
                assert(empty_results@ =~= Seq::<DeletableGroupResult>::empty());
            }
            if !crate::schema::deletable_groups_fit_check(rs) {
                return Err(Error::MalformedInput);
            }
            crate::schema::encode_delete_groups_response(out, *throttle_time_ms, rs);
            Ok(())
        },
        Body::SyncGroupResponse { throttle_time_ms, error_code, assignment, .. } => {
            if api_version < 0 || api_version > 1 {
                return Err(Error::SchemaMismatch);
            }
            let throttle: i32 = match throttle_time_ms {
                Some(t) => *t,
                None => 0,
            };
            if assignment.len() > 0x7fff_ffff {
                return Err(Error::MalformedInput);
            }
            crate::schema::encode_sync_group_response(
                out,
                throttle,
                *error_code,
                assignment,
                api_version,
            );
            Ok(())
        },
        Body::DeleteTopicsResponse { throttle_time_ms, responses } => {
            if api_version < 0 || api_version > 1 {
                return Err(Error::SchemaMismatch);
            }
            let throttle: i32 = match throttle_time_ms {
                Some(t) => *t,
                None => 0,
            };
            let empty_responses: Vec<DeletableTopicResult> = Vec::new();
            let rs: &Vec<DeletableTopicResult> = match responses {
                Some(rs) => rs,
                None => &empty_responses,
            };
            proof {
                assert(empty_responses@ =~= Seq::<DeletableTopicResult>::empty());
            }
            if !crate::schema::deletable_topics_fit_check(rs) {
                return Err(Error::MalformedInput);
            }
            crate::schema::encode_delete_topics_response(out, throttle, rs, api_version);
            Ok(())
        },
        Body::AddPartitionsToTxnResponse { throttle_time_ms, results } => {
            if api_version < 0 || api_version > 1 {
                return Err(Error::SchemaMismatch);
            }
            if !crate::schema::txn_topic_results_fit_check(results) {
                return Err(Error::MalformedInput);
            }
            crate::schema::encode_add_partitions_response(out, *throttle_time_ms, results);
            Ok(())
        },
        Body::ListOffsetsResponse { topics, .. } => {
            if api_version != 1 {
                return Err(Error::SchemaMismatch);
            }
            let empty_topics: Vec<ListOffsetsTopicResponse> = Vec::new();
            let ts: &Vec<ListOffsetsTopicResponse> = match topics {
                Some(ts) => ts,
                None => &empty_topics,
            };
            proof {
                assert(empty_topics@ =~= Seq::<ListOffsetsTopicResponse>::empty());
            }
            if !crate::schema::lo_topic_results_fit_check(ts) {
                return Err(Error::MalformedInput);
            }
            crate::schema::encode_list_offsets_response(out, ts);
            Ok(())
        },
        _ => Err(Error::SchemaMismatch),
    }
}

} // verus!
