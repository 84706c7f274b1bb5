//! What each request emits to the metrics and tracing sinks: the
//! `api_requests` attribute set and the per-request span, computed here as
//! plain values so the emission contract is checked; the process-wide
//! exporter wiring stays outside the library.

use vstd::prelude::*;

verus! {

use crate::body::Body;
use crate::body::BatchSet;
use crate::body::PartitionProduceData;
use crate::body::TopicProduceData;
use crate::batch::Batch;
use crate::body::span_name_of;

/// Most an `i64` attribute can carry.
pub const I64_CAP: i64 = 0x7fff_ffff_ffff_ffff;

// ===== attribute values =====

/// An attribute value, as the meter takes them.
#[derive(Clone, Debug, PartialEq, Eq, Hash)]
pub enum AttrValue {
    I64(i64),
    Str(String),
    Bool(bool),
}

/// Mathematical value of an [`AttrValue`].
pub enum AttrValueV {
    I64(i64),
    Str(Seq<char>),
    Bool(bool),
}

impl View for AttrValue {
    type V = AttrValueV;

    open spec fn view(&self) -> AttrValueV {
        match self {
            AttrValue::I64(v) => AttrValueV::I64(*v),
            AttrValue::Str(s) => AttrValueV::Str(s@),
            AttrValue::Bool(b) => AttrValueV::Bool(*b),
        }
    }
}

/// One key/value attribute.
#[derive(Clone, Debug, PartialEq, Eq, Hash)]
pub struct Attr {
    pub key: &'static str,
    pub value: AttrValue,
}

/// Mathematical value of an [`Attr`].
pub struct AttrV {
    pub key: Seq<char>,
    pub value: AttrValueV,
}

impl View for Attr {
    type V = AttrV;

    open spec fn view(&self) -> AttrV {
        AttrV { key: self.key@, value: self.value@ }
    }
}

impl DeepView for Attr {
    type V = AttrV;

    open spec fn deep_view(&self) -> AttrV {
        self.view()
    }
}

/// An `i64` attribute.
pub open spec fn attr_i64(key: Seq<char>, v: i64) -> AttrV {
    AttrV { key, value: AttrValueV::I64(v) }
}

/// A string attribute.
pub open spec fn attr_str(key: Seq<char>, v: Seq<char>) -> AttrV {
    AttrV { key, value: AttrValueV::Str(v) }
}

/// A boolean attribute.
pub open spec fn attr_bool(key: Seq<char>, v: bool) -> AttrV {
    AttrV { key, value: AttrValueV::Bool(v) }
}

/// Appends one attribute.
fn push_attr(v: &mut Vec<Attr>, key: &'static str, value: AttrValue)
    ensures
        final(v).deep_view() == old(v).deep_view().push(
            (AttrV { key: key@, value: value@ }),
        ),
{
    let ghost pre: Vec<Attr> = *v;
    let ghost av: AttrV = AttrV { key: key@, value: value@ };
    v.push(Attr { key, value });
    proof {
        assert(v.deep_view() =~= pre.deep_view().push(av));
    }
}

// ===== the produce record count =====

/// Clamp at what an `i64` attribute can carry.
pub open spec fn i64_sat(x: int) -> int {
    if x > I64_CAP {
        I64_CAP as int
    } else {
        x
    }
}

/// Records in a run of batches.
pub open spec fn batches_count(bs: Seq<Batch>) -> int
    decreases bs.len(),
{
    if bs.len() == 0 {
        0
    } else {
        bs[0].records@.len() + batches_count(bs.skip(1))
    }
}

/// Records in a partition's batch set.
pub open spec fn batchset_count(o: Option<BatchSet>) -> int {
    match o {
        None => 0,
        Some(bs) => batches_count(bs.batches@),
    }
}

/// Records in a run of partitions.
pub open spec fn partitions_count(ps: Seq<PartitionProduceData>) -> int
    decreases ps.len(),
{
    if ps.len() == 0 {
        0
    } else {
        batchset_count(ps[0].records) + partitions_count(ps.skip(1))
    }
}

/// Records in a run of topics.
pub open spec fn topics_count(ts: Seq<TopicProduceData>) -> int
    decreases ts.len(),
{
    if ts.len() == 0 {
        0
    } else {
        (match ts[0].partition_data {
            None => 0,
            Some(ps) => partitions_count(ps@),
        }) + topics_count(ts.skip(1))
    }
}

/// The record count a produce request reports: the records in every batch
/// of every partition of every topic, clamped at what the attribute can
/// carry.
pub open spec fn produce_records_attr(topic_data: Option<Vec<TopicProduceData>>) -> int {
    match topic_data {
        None => 0,
        Some(ts) => i64_sat(topics_count(ts@)),
    }
}

proof fn lemma_batches_count_concat(a: Seq<Batch>, b: Seq<Batch>)
    ensures
        batches_count(a + b) == batches_count(a) + batches_count(b),
    decreases a.len(),
{
    if a.len() == 0 {
        assert(a + b =~= b);
    } else {
        assert((a + b).skip(1) =~= a.skip(1) + b);
        lemma_batches_count_concat(a.skip(1), b);
    }
}

proof fn lemma_partitions_count_concat(a: Seq<PartitionProduceData>, b: Seq<PartitionProduceData>)
    ensures
        partitions_count(a + b) == partitions_count(a) + partitions_count(b),
    decreases a.len(),
{
    if a.len() == 0 {
        assert(a + b =~= b);
    } else {
        assert((a + b).skip(1) =~= a.skip(1) + b);
        lemma_partitions_count_concat(a.skip(1), b);
    }
}

proof fn lemma_topics_count_concat(a: Seq<TopicProduceData>, b: Seq<TopicProduceData>)
    ensures
        topics_count(a + b) == topics_count(a) + topics_count(b),
    decreases a.len(),
{
    if a.len() == 0 {
        assert(a + b =~= b);
    } else {
        assert((a + b).skip(1) =~= a.skip(1) + b);
        lemma_topics_count_concat(a.skip(1), b);
    }
}

proof fn lemma_batches_count_nonneg(bs: Seq<Batch>)
    ensures
        batches_count(bs) >= 0,
    decreases bs.len(),
{
    if bs.len() > 0 {
        lemma_batches_count_nonneg(bs.skip(1));
    }
}

proof fn lemma_partitions_count_nonneg(ps: Seq<PartitionProduceData>)
    ensures
        partitions_count(ps) >= 0,
    decreases ps.len(),
{
    if ps.len() > 0 {
        lemma_partitions_count_nonneg(ps.skip(1));
        match ps[0].records {
            None => {},
            Some(bs) => {
                lemma_batches_count_nonneg(bs.batches@);
            },
        }
    }
}

proof fn lemma_topics_count_nonneg(ts: Seq<TopicProduceData>)
    ensures
        topics_count(ts) >= 0,
    decreases ts.len(),
{
    if ts.len() > 0 {
        lemma_topics_count_nonneg(ts.skip(1));
        match ts[0].partition_data {
            None => {},
            Some(ps) => {
                lemma_partitions_count_nonneg(ps@);
            },
        }
    }
}

/// Clamping before a clamped sum loses nothing.
proof fn lemma_sat_sat(a: int, b: int)
    requires
        a >= 0,
        b >= 0,
    ensures
        i64_sat(i64_sat(a) + i64_sat(b)) == i64_sat(a + b),
{
}

/// Saturating sum of two clamped non-negative counts.
fn sat_add(a: i64, b: i64) -> (r: i64)
    requires
        a >= 0,
        b >= 0,
    ensures
        r == i64_sat(a + b),
{
    if a > I64_CAP - b {
        I64_CAP
    } else {
        a + b
    }
}

/// Records in a run of batches, clamped.
fn batches_count_exec(bs: &Vec<Batch>) -> (r: i64)
    ensures
        r == i64_sat(batches_count(bs@)),
        r >= 0,
{
    let mut acc: i64 = 0;
    let mut i: usize = 0;
    proof {
        assert(bs@.take(0) =~= Seq::<Batch>::empty());
    }
    while i < bs.len()
        invariant
            i <= bs@.len(),
            acc == i64_sat(batches_count(bs@.take(i as int))),
            acc >= 0,
        decreases bs@.len() - i,
    {
        proof {
            lemma_batches_count_nonneg(bs@.take(i as int));
            assert(bs@.take(i + 1) =~= bs@.take(i as int) + seq![bs@[i as int]]);
            lemma_batches_count_concat(bs@.take(i as int), seq![bs@[i as int]]);
            assert(seq![bs@[i as int]].skip(1) =~= Seq::<Batch>::empty());
            assert(seq![bs@[i as int]][0] == bs@[i as int]);
            assert(batches_count(Seq::<Batch>::empty()) == 0);
            assert(batches_count(seq![bs@[i as int]]) == bs@[i as int].records@.len());
            lemma_sat_sat(batches_count(bs@.take(i as int)), bs@[i as int].records@.len() as int);
        }
        let n: u64 = bs[i].records.len() as u64;
        let c: i64 = if n > 0x7fff_ffff_ffff_ffff {
            I64_CAP
        } else {
            n as i64
        };
        acc = sat_add(acc, c);
        i = i + 1;
    }
    proof {
        assert(bs@.take(bs@.len() as int) =~= bs@);
    }
    acc
}

/// Records in a run of partitions, clamped.
fn partitions_count_exec(ps: &Vec<PartitionProduceData>) -> (r: i64)
    ensures
        r == i64_sat(partitions_count(ps@)),
        r >= 0,
{
    let mut acc: i64 = 0;
    let mut i: usize = 0;
    proof {
        assert(ps@.take(0) =~= Seq::<PartitionProduceData>::empty());
    }
    while i < ps.len()
        invariant
            i <= ps@.len(),
            acc == i64_sat(partitions_count(ps@.take(i as int))),
            acc >= 0,
        decreases ps@.len() - i,
    {
        proof {
            lemma_partitions_count_nonneg(ps@.take(i as int));
            assert(ps@.take(i + 1) =~= ps@.take(i as int) + seq![ps@[i as int]]);
            lemma_partitions_count_concat(ps@.take(i as int), seq![ps@[i as int]]);
            assert(seq![ps@[i as int]].skip(1) =~= Seq::<PartitionProduceData>::empty());
            assert(seq![ps@[i as int]][0] == ps@[i as int]);
            assert(partitions_count(Seq::<PartitionProduceData>::empty()) == 0);
            assert(partitions_count(seq![ps@[i as int]]) == batchset_count(
                ps@[i as int].records,
            ));
            match ps@[i as int].records {
                None => {},
                Some(bs) => {
                    lemma_batches_count_nonneg(bs.batches@);
                },
            }
            lemma_sat_sat(
                partitions_count(ps@.take(i as int)),
                batchset_count(ps@[i as int].records),
            );
        }
        let c: i64 = match &ps[i].records {
            None => 0,
            Some(bs) => batches_count_exec(&bs.batches),
        };
        acc = sat_add(acc, c);
        i = i + 1;
    }
    proof {
        assert(ps@.take(ps@.len() as int) =~= ps@);
    }
    acc
}

/// The record count a produce request reports.
pub fn produce_record_count(topic_data: &Option<Vec<TopicProduceData>>) -> (r: i64)
    ensures
        r == produce_records_attr(*topic_data),
        r >= 0,
{
    let ts: &Vec<TopicProduceData> = match topic_data {
        None => {
            return 0;
        },
        Some(ts) => ts,
    };
    let mut acc: i64 = 0;
    let mut i: usize = 0;
    proof {
        assert(ts@.take(0) =~= Seq::<TopicProduceData>::empty());
    }
    while i < ts.len()
        invariant
            i <= ts@.len(),
            acc == i64_sat(topics_count(ts@.take(i as int))),
            acc >= 0,
        decreases ts@.len() - i,
    {
        proof {
            lemma_topics_count_nonneg(ts@.take(i as int));
            assert(ts@.take(i + 1) =~= ts@.take(i as int) + seq![ts@[i as int]]);
            lemma_topics_count_concat(ts@.take(i as int), seq![ts@[i as int]]);
            assert(seq![ts@[i as int]].skip(1) =~= Seq::<TopicProduceData>::empty());
            assert(seq![ts@[i as int]][0] == ts@[i as int]);
            assert(topics_count(Seq::<TopicProduceData>::empty()) == 0);
            assert(topics_count(seq![ts@[i as int]]) == (match ts@[i as int].partition_data {
                None => 0int,
                Some(ps) => partitions_count(ps@),
            }));
            match ts@[i as int].partition_data {
                None => {},
                Some(ps) => {
                    lemma_partitions_count_nonneg(ps@);
                },
            }
            lemma_sat_sat(
                topics_count(ts@.take(i as int)),
                (match ts@[i as int].partition_data {
                    None => 0int,
                    Some(ps) => partitions_count(ps@),
                }),
            );
        }
        let c: i64 = match &ts[i].partition_data {
            None => 0,
            Some(ps) => partitions_count_exec(ps),
        };
        acc = sat_add(acc, c);
        i = i + 1;
    }
    proof {
        assert(ts@.take(ts@.len() as int) =~= ts@);
    }
    acc
}

/// A collection count as an `i64` attribute, clamped.
fn len_i64(n: usize) -> (r: i64)
    ensures
        r == i64_sat(n as int),
        r >= 0,
{
    let n64: u64 = n as u64;
    if n64 > 0x7fff_ffff_ffff_ffff {
        I64_CAP
    } else {
        n64 as i64
    }
}

/// The count of an optional collection, clamped.
pub open spec fn opt_len<T>(o: Option<Vec<T>>) -> i64 {
    match o {
        None => 0,
        Some(v) => i64_sat(v@.len() as int) as i64,
    }
}

// ===== the api_requests attribute set =====

/// The three attributes every request carries.
pub open spec fn base_attrs_of(api_key: i16, api_version: i16, correlation_id: i32) -> Seq<
    AttrV,
> {
    seq![
        attr_i64("api_key"@, api_key as i64),
        attr_i64("api_version"@, api_version as i64),
        attr_i64("correlation_id"@, correlation_id as i64),
    ]
}

/// The API-specific attributes of each request; empty for bodies the
/// meter does not single out.
pub open spec fn api_attrs_of(b: &Body) -> Seq<AttrV> {
    match b {
        Body::AddOffsetsToTxnRequest { transactional_id, producer_id, producer_epoch, group_id } => seq![
            attr_str("api_name"@, "add_offsets_to_txn"@),
            attr_str("transactional_id"@, transactional_id@),
            attr_i64("producer_id"@, *producer_id),
            attr_i64("producer_epoch"@, *producer_epoch as i64),
            attr_str("group_id"@, group_id@),
        ],
        Body::AddPartitionsToTxnRequest { .. } => seq![
            attr_str("api_name"@, "add_partitions_to_txn"@),
        ],
        Body::ApiVersionsRequest { .. } => seq![attr_str("api_name"@, "api_versions"@)],
        Body::CreateTopicsRequest { .. } => seq![attr_str("api_name"@, "create_topics"@)],
        Body::DeleteTopicsRequest { .. } => seq![attr_str("api_name"@, "delete_topics"@)],
        Body::EndTxnRequest { transactional_id, producer_id, producer_epoch, committed } => seq![
            attr_str("api_name"@, "end_txn"@),
            attr_str("transactional_id"@, transactional_id@),
            attr_i64("producer_id"@, *producer_id),
            attr_i64("producer_epoch"@, *producer_epoch as i64),
            attr_bool("committed"@, *committed),
        ],
        Body::FetchRequest { max_wait_ms, min_bytes, .. } => seq![
            attr_str("api_name"@, "fetch"@),
            attr_i64("max_wait_ms"@, *max_wait_ms as i64),
            attr_i64("min_bytes"@, *min_bytes as i64),
        ],
        Body::FindCoordinatorRequest { .. } => seq![attr_str("api_name"@, "find_coordinator"@)],
        Body::InitProducerIdRequest {
            transactional_id,
            transaction_timeout_ms,
            producer_id,
            producer_epoch,
        } => seq![
            attr_str("api_name"@, "init_producer_id"@),
            attr_i64("transaction_timeout_ms"@, *transaction_timeout_ms as i64),
        ] + (match transactional_id {
            Some(t) => seq![attr_str("transactional_id"@, t@)],
            None => Seq::empty(),
        }) + (match producer_id {
            Some(p) => seq![attr_i64("producer_id"@, *p)],
            None => Seq::empty(),
        }) + (match producer_epoch {
            Some(p) => seq![attr_i64("producer_epoch"@, *p as i64)],
            None => Seq::empty(),
        }),
        Body::JoinGroupRequest {
            group_id,
            session_timeout_ms,
            rebalance_timeout_ms,
            member_id,
            group_instance_id,
            protocol_type,
            reason,
            ..
        } => seq![
            attr_str("api_name"@, "join_group"@),
            attr_str("group_id"@, group_id@),
            attr_i64("session_timeout_ms"@, *session_timeout_ms as i64),
            attr_str("member_id"@, member_id@),
            attr_str("protocol_type"@, protocol_type@),
        ] + (match rebalance_timeout_ms {
            Some(t) => seq![attr_i64("rebalance_timeout_ms"@, *t as i64)],
            None => Seq::empty(),
        }) + (match group_instance_id {
            Some(g) => seq![attr_str("group_instance_id"@, g@)],
            None => Seq::empty(),
        }) + (match reason {
            Some(r) => seq![attr_str("reason"@, r@)],
            None => Seq::empty(),
        }),
        Body::LeaveGroupRequest { group_id, member_id, members } => seq![
            attr_str("api_name"@, "leave_group"@),
            attr_str("group_id"@, group_id@),
            attr_i64("members"@, opt_len(*members)),
        ] + (match member_id {
            Some(m) => seq![attr_str("member_id"@, m@)],
            None => Seq::empty(),
        }),
        Body::ListOffsetsRequest { replica_id, isolation_level, topics } => seq![
            attr_str("api_name"@, "list_offsets"@),
            attr_i64("replica_id"@, *replica_id as i64),
            attr_i64("topics"@, opt_len(*topics)),
        ] + (match isolation_level {
            Some(l) => seq![attr_i64("isolation_level"@, *l as i64)],
            None => Seq::empty(),
        }),
        Body::MetadataRequest {
            topics,
            allow_auto_topic_creation,
            include_cluster_authorized_operations,
            include_topic_authorized_operations,
        } => seq![
            attr_str("api_name"@, "metadata"@),
            attr_i64("topics"@, opt_len(*topics)),
        ] + (match allow_auto_topic_creation {
            Some(a) => seq![attr_bool("allow_auto_topic_creation"@, *a)],
            None => Seq::empty(),
        }) + (match include_cluster_authorized_operations {
            Some(a) => seq![attr_bool("include_cluster_authorized_operations"@, *a)],
            None => Seq::empty(),
        }) + (match include_topic_authorized_operations {
            Some(a) => seq![attr_bool("include_topic_authorized_operations"@, *a)],
            None => Seq::empty(),
        }),
        Body::OffsetFetchRequest { group_id, topics, groups, require_stable } => seq![
            attr_str("api_name"@, "offset_fetch"@),
            attr_i64("topics"@, opt_len(*topics)),
            attr_i64("groups"@, opt_len(*groups)),
        ] + (match group_id {
            Some(g) => seq![attr_str("group_id"@, g@)],
            None => Seq::empty(),
        }) + (match require_stable {
            Some(rs) => seq![attr_bool("require_stable"@, *rs)],
            None => Seq::empty(),
        }),
        Body::ProduceRequest { transactional_id, acks, timeout_ms, topic_data } => seq![
            attr_str("api_name"@, "produce"@),
            attr_i64("records"@, produce_records_attr(*topic_data) as i64),
            attr_i64("acks"@, *acks as i64),
            attr_i64("timeout_ms"@, *timeout_ms as i64),
        ] + (match transactional_id {
            Some(t) => seq![attr_str("transactional_id"@, t@)],
            None => Seq::empty(),
        }),
        Body::SyncGroupRequest {
            group_id,
            generation_id,
            member_id,
            group_instance_id,
            protocol_type,
            protocol_name,
            assignments,
        } => seq![
            attr_str("api_name"@, "sync_group"@),
            attr_str("group_id"@, group_id@),
            attr_i64("generation_id"@, *generation_id as i64),
            attr_str("member_id"@, member_id@),
            attr_i64("assignments"@, opt_len(*assignments)),
        ] + (match group_instance_id {
            Some(g) => seq![attr_str("group_instance_id"@, g@)],
            None => Seq::empty(),
        }) + (match protocol_type {
            Some(p) => seq![attr_str("protocol_type"@, p@)],
            None => Seq::empty(),
        }) + (match protocol_name {
            Some(p) => seq![attr_str("protocol_name"@, p@)],
            None => Seq::empty(),
        }),
        Body::TxnOffsetCommitRequest {
            transactional_id,
            group_id,
            producer_id,
            producer_epoch,
            generation_id,
            member_id,
            group_instance_id,
            topics,
        } => seq![
            attr_str("api_name"@, "txn_offset_commit"@),
            attr_str("transactional_id"@, transactional_id@),
            attr_str("group_id"@, group_id@),
            attr_i64("producer_id"@, *producer_id),
            attr_i64("producer_epoch"@, *producer_epoch as i64),
            attr_i64("topics"@, opt_len(*topics)),
        ] + (match generation_id {
            Some(g) => seq![attr_i64("generation_id"@, *g as i64)],
            None => Seq::empty(),
        }) + (match member_id {
            Some(m) => seq![attr_str("member_id"@, m@)],
            None => Seq::empty(),
        }) + (match group_instance_id {
            Some(g) => seq![attr_str("group_instance_id"@, g@)],
            None => Seq::empty(),
        }),
        Body::ConsumerGroupDescribeRequest { .. } => seq![
            attr_str("api_name"@, "consumer_group_describe"@),
        ],
        Body::DeleteGroupsRequest { .. } => seq![attr_str("api_name"@, "delete_groups"@)],
        Body::DeleteRecordsRequest { .. } => seq![attr_str("api_name"@, "delete_records"@)],
        Body::DescribeClusterRequest { .. } => seq![attr_str("api_name"@, "describe_cluster"@)],
        Body::DescribeConfigsRequest { .. } => seq![attr_str("api_name"@, "describe_configs"@)],
        Body::DescribeGroupsRequest { .. } => seq![attr_str("api_name"@, "describe_groups"@)],
        Body::GetTelemetrySubscriptionsRequest { .. } => seq![
            attr_str("api_name"@, "get_telemetry_subscriptions"@),
        ],
        Body::HeartbeatRequest { .. } => seq![attr_str("api_name"@, "heartbeat"@)],
        Body::ListGroupsRequest { .. } => seq![attr_str("api_name"@, "list_groups"@)],
        Body::ListPartitionReassignmentsRequest { .. } => seq![
            attr_str("api_name"@, "list_partition_reassignments"@),
        ],
        Body::OffsetCommitRequest { .. } => seq![attr_str("api_name"@, "offset_commit"@)],
        _ => Seq::empty(),
    }
}

/// The whole attribute set the `api_requests` counter is stepped with.
pub open spec fn attributes_of(
    api_key: i16,
    api_version: i16,
    correlation_id: i32,
    b: &Body,
) -> Seq<AttrV> {
    base_attrs_of(api_key, api_version, correlation_id) + api_attrs_of(b)
}

/// The attribute set the `api_requests` counter is stepped with: the api
/// key, version and correlation id, then the API name and the request's
/// key parameters.
#[verifier::rlimit(100)]
#[verifier::spinoff_prover]
pub fn attributes(api_key: i16, api_version: i16, correlation_id: i32, body: &Body) -> (r: Vec<
    Attr,
>)
    ensures
        r.deep_view() == attributes_of(api_key, api_version, correlation_id, body),
{
    let mut v: Vec<Attr> = Vec::new();
    proof {
        assert(v.deep_view() =~= Seq::<AttrV>::empty());
    }
    push_attr(&mut v, "api_key", AttrValue::I64(api_key as i64));
    push_attr(&mut v, "api_version", AttrValue::I64(api_version as i64));
    push_attr(&mut v, "correlation_id", AttrValue::I64(correlation_id as i64));
    match body {
        Body::AddOffsetsToTxnRequest { transactional_id, producer_id, producer_epoch, group_id } => {
            push_attr(&mut v, "api_name", AttrValue::Str(String::from_str("add_offsets_to_txn")));
            push_attr(&mut v, "transactional_id", AttrValue::Str(transactional_id.clone()));
            push_attr(&mut v, "producer_id", AttrValue::I64(*producer_id));
            push_attr(&mut v, "producer_epoch", AttrValue::I64(*producer_epoch as i64));
            push_attr(&mut v, "group_id", AttrValue::Str(group_id.clone()));
        },
        Body::AddPartitionsToTxnRequest { .. } => {
            push_attr(&mut v, "api_name", AttrValue::Str(String::from_str("add_partitions_to_txn")));
        },
        Body::ApiVersionsRequest { .. } => {
            push_attr(&mut v, "api_name", AttrValue::Str(String::from_str("api_versions")));
        },
        Body::CreateTopicsRequest { .. } => {
            push_attr(&mut v, "api_name", AttrValue::Str(String::from_str("create_topics")));
        },
        Body::DeleteTopicsRequest { .. } => {
            push_attr(&mut v, "api_name", AttrValue::Str(String::from_str("delete_topics")));
        },
        Body::EndTxnRequest { transactional_id, producer_id, producer_epoch, committed } => {
            push_attr(&mut v, "api_name", AttrValue::Str(String::from_str("end_txn")));
            push_attr(&mut v, "transactional_id", AttrValue::Str(transactional_id.clone()));
            push_attr(&mut v, "producer_id", AttrValue::I64(*producer_id));
            push_attr(&mut v, "producer_epoch", AttrValue::I64(*producer_epoch as i64));
            push_attr(&mut v, "committed", AttrValue::Bool(*committed));
        },
        Body::FetchRequest { max_wait_ms, min_bytes, .. } => {
            push_attr(&mut v, "api_name", AttrValue::Str(String::from_str("fetch")));
            push_attr(&mut v, "max_wait_ms", AttrValue::I64(*max_wait_ms as i64));
            push_attr(&mut v, "min_bytes", AttrValue::I64(*min_bytes as i64));
        },
        Body::FindCoordinatorRequest { .. } => {
            push_attr(&mut v, "api_name", AttrValue::Str(String::from_str("find_coordinator")));
        },
        Body::InitProducerIdRequest {
            transactional_id,
            transaction_timeout_ms,
            producer_id,
            producer_epoch,
        } => {
            push_attr(&mut v, "api_name", AttrValue::Str(String::from_str("init_producer_id")));
            push_attr(
                &mut v,
                "transaction_timeout_ms",
                AttrValue::I64(*transaction_timeout_ms as i64),
            );
            if let Some(t) = transactional_id {
                push_attr(&mut v, "transactional_id", AttrValue::Str(t.clone()));
            }
            if let Some(p) = producer_id {
                push_attr(&mut v, "producer_id", AttrValue::I64(*p));
            }
            if let Some(p) = producer_epoch {
                push_attr(&mut v, "producer_epoch", AttrValue::I64(*p as i64));
            }
        },
        Body::JoinGroupRequest {
            group_id,
            session_timeout_ms,
            rebalance_timeout_ms,
            member_id,
            group_instance_id,
            protocol_type,
            reason,
            ..
        } => {
            push_attr(&mut v, "api_name", AttrValue::Str(String::from_str("join_group")));
            push_attr(&mut v, "group_id", AttrValue::Str(group_id.clone()));
            push_attr(&mut v, "session_timeout_ms", AttrValue::I64(*session_timeout_ms as i64));
            push_attr(&mut v, "member_id", AttrValue::Str(member_id.clone()));
            push_attr(&mut v, "protocol_type", AttrValue::Str(protocol_type.clone()));
            if let Some(t) = rebalance_timeout_ms {
                push_attr(&mut v, "rebalance_timeout_ms", AttrValue::I64(*t as i64));
            }
            if let Some(g) = group_instance_id {
                push_attr(&mut v, "group_instance_id", AttrValue::Str(g.clone()));
            }
            if let Some(re) = reason {
                push_attr(&mut v, "reason", AttrValue::Str(re.clone()));
            }
        },
        Body::LeaveGroupRequest { group_id, member_id, members } => {
            push_attr(&mut v, "api_name", AttrValue::Str(String::from_str("leave_group")));
            push_attr(&mut v, "group_id", AttrValue::Str(group_id.clone()));
            let mc: i64 = match members {
                Some(ms) => len_i64(ms.len()),
                None => 0,
            };
            push_attr(&mut v, "members", AttrValue::I64(mc));
            if let Some(m) = member_id {
                push_attr(&mut v, "member_id", AttrValue::Str(m.clone()));
            }
        },
        Body::ListOffsetsRequest { replica_id, isolation_level, topics } => {
            push_attr(&mut v, "api_name", AttrValue::Str(String::from_str("list_offsets")));
            push_attr(&mut v, "replica_id", AttrValue::I64(*replica_id as i64));
            let tc: i64 = match topics {
                Some(ts) => len_i64(ts.len()),
                None => 0,
            };
            push_attr(&mut v, "topics", AttrValue::I64(tc));
            if let Some(l) = isolation_level {
                push_attr(&mut v, "isolation_level", AttrValue::I64(*l as i64));
            }
        },
        Body::MetadataRequest {
            topics,
            allow_auto_topic_creation,
            include_cluster_authorized_operations,
            include_topic_authorized_operations,
        } => {
            push_attr(&mut v, "api_name", AttrValue::Str(String::from_str("metadata")));
            let tc: i64 = match topics {
                Some(ts) => len_i64(ts.len()),
                None => 0,
            };
            push_attr(&mut v, "topics", AttrValue::I64(tc));
            if let Some(a) = allow_auto_topic_creation {
                push_attr(&mut v, "allow_auto_topic_creation", AttrValue::Bool(*a));
            }
            if let Some(a) = include_cluster_authorized_operations {
                push_attr(&mut v, "include_cluster_authorized_operations", AttrValue::Bool(*a));
            }
            if let Some(a) = include_topic_authorized_operations {
                push_attr(&mut v, "include_topic_authorized_operations", AttrValue::Bool(*a));
            }
        },
        Body::OffsetFetchRequest { group_id, topics, groups, require_stable } => {
            push_attr(&mut v, "api_name", AttrValue::Str(String::from_str("offset_fetch")));
            let tc: i64 = match topics {
                Some(ts) => len_i64(ts.len()),
                None => 0,
            };
            push_attr(&mut v, "topics", AttrValue::I64(tc));
            let gc: i64 = match groups {
                Some(gs) => len_i64(gs.len()),
                None => 0,
            };
            push_attr(&mut v, "groups", AttrValue::I64(gc));
            if let Some(g) = group_id {
                push_attr(&mut v, "group_id", AttrValue::Str(g.clone()));
            }
            if let Some(rs) = require_stable {
                push_attr(&mut v, "require_stable", AttrValue::Bool(*rs));
            }
        },
        Body::ProduceRequest { transactional_id, acks, timeout_ms, topic_data } => {
            push_attr(&mut v, "api_name", AttrValue::Str(String::from_str("produce")));
            let rc: i64 = produce_record_count(topic_data);
            push_attr(&mut v, "records", AttrValue::I64(rc));
            push_attr(&mut v, "acks", AttrValue::I64(*acks as i64));
            push_attr(&mut v, "timeout_ms", AttrValue::I64(*timeout_ms as i64));
            if let Some(t) = transactional_id {
                push_attr(&mut v, "transactional_id", AttrValue::Str(t.clone()));
            }
        },
        Body::SyncGroupRequest {
            group_id,
            generation_id,
            member_id,
            group_instance_id,
            protocol_type,
            protocol_name,
            assignments,
        } => {
            push_attr(&mut v, "api_name", AttrValue::Str(String::from_str("sync_group")));
            push_attr(&mut v, "group_id", AttrValue::Str(group_id.clone()));
            push_attr(&mut v, "generation_id", AttrValue::I64(*generation_id as i64));
            push_attr(&mut v, "member_id", AttrValue::Str(member_id.clone()));
            let ac: i64 = match assignments {
                Some(asg) => len_i64(asg.len()),
                None => 0,
            };
            push_attr(&mut v, "assignments", AttrValue::I64(ac));
            if let Some(g) = group_instance_id {
                push_attr(&mut v, "group_instance_id", AttrValue::Str(g.clone()));
            }
            if let Some(p) = protocol_type {
                push_attr(&mut v, "protocol_type", AttrValue::Str(p.clone()));
            }
            if let Some(p) = protocol_name {
                push_attr(&mut v, "protocol_name", AttrValue::Str(p.clone()));
            }
        },
        Body::TxnOffsetCommitRequest {
            transactional_id,
            group_id,
            producer_id,
            producer_epoch,
            generation_id,
            member_id,
            group_instance_id,
            topics,
        } => {
            push_attr(&mut v, "api_name", AttrValue::Str(String::from_str("txn_offset_commit")));
            push_attr(&mut v, "transactional_id", AttrValue::Str(transactional_id.clone()));
            push_attr(&mut v, "group_id", AttrValue::Str(group_id.clone()));
            push_attr(&mut v, "producer_id", AttrValue::I64(*producer_id));
            push_attr(&mut v, "producer_epoch", AttrValue::I64(*producer_epoch as i64));
            let tc: i64 = match topics {
                Some(ts) => len_i64(ts.len()),
                None => 0,
            };
            push_attr(&mut v, "topics", AttrValue::I64(tc));
            if let Some(g) = generation_id {
                push_attr(&mut v, "generation_id", AttrValue::I64(*g as i64));
            }
            if let Some(m) = member_id {
                push_attr(&mut v, "member_id", AttrValue::Str(m.clone()));
            }
            if let Some(g) = group_instance_id {
                push_attr(&mut v, "group_instance_id", AttrValue::Str(g.clone()));
            }
        },
        Body::ConsumerGroupDescribeRequest { .. } => {
            push_attr(
                &mut v,
                "api_name",
                AttrValue::Str(String::from_str("consumer_group_describe")),
            );
        },
        Body::DeleteGroupsRequest { .. } => {
            push_attr(&mut v, "api_name", AttrValue::Str(String::from_str("delete_groups")));
        },
        Body::DeleteRecordsRequest { .. } => {
            push_attr(&mut v, "api_name", AttrValue::Str(String::from_str("delete_records")));
        },
        Body::DescribeClusterRequest { .. } => {
            push_attr(&mut v, "api_name", AttrValue::Str(String::from_str("describe_cluster")));
        },
        Body::DescribeConfigsRequest { .. } => {
            push_attr(&mut v, "api_name", AttrValue::Str(String::from_str("describe_configs")));
        },
        Body::DescribeGroupsRequest { .. } => {
            push_attr(&mut v, "api_name", AttrValue::Str(String::from_str("describe_groups")));
        },
        Body::GetTelemetrySubscriptionsRequest { .. } => {
            push_attr(
                &mut v,
                "api_name",
                AttrValue::Str(String::from_str("get_telemetry_subscriptions")),
            );
        },
        Body::HeartbeatRequest { .. } => {
            push_attr(&mut v, "api_name", AttrValue::Str(String::from_str("heartbeat")));
        },
        Body::ListGroupsRequest { .. } => {
            push_attr(&mut v, "api_name", AttrValue::Str(String::from_str("list_groups")));
        },
        Body::ListPartitionReassignmentsRequest { .. } => {
            push_attr(
                &mut v,
                "api_name",
                AttrValue::Str(String::from_str("list_partition_reassignments")),
            );
        },
        Body::OffsetCommitRequest { .. } => {
            push_attr(&mut v, "api_name", AttrValue::Str(String::from_str("offset_commit")));
        },
        _ => {},
    }
    proof {
        assert(v.deep_view() =~= attributes_of(api_key, api_version, correlation_id, body));
    }
    v
}

// ===== the per-request span =====

/// The observation span a request runs under: the API name and the fields
/// the span records.
#[derive(Clone, Debug, PartialEq, Eq, Hash)]
pub struct SpanInfo {
    pub name: &'static str,
    pub fields: Vec<Attr>,
}

/// The fields each request's span records.
pub open spec fn span_fields_of(
    api_key: i16,
    api_version: i16,
    correlation_id: i32,
    b: &Body,
) -> Seq<AttrV> {
    match b {
        Body::AddOffsetsToTxnRequest { transactional_id, producer_id, producer_epoch, group_id } => base_attrs_of(
            api_key,
            api_version,
            correlation_id,
        ) + seq![
            attr_str("transactional_id"@, transactional_id@),
            attr_i64("producer_id"@, *producer_id),
            attr_i64("producer_epoch"@, *producer_epoch as i64),
            attr_str("group_id"@, group_id@),
        ],
        Body::EndTxnRequest { transactional_id, producer_id, producer_epoch, committed } => base_attrs_of(
            api_key,
            api_version,
            correlation_id,
        ) + seq![
            attr_str("transactional_id"@, transactional_id@),
            attr_i64("producer_id"@, *producer_id),
            attr_i64("producer_epoch"@, *producer_epoch as i64),
            attr_bool("committed"@, *committed),
        ],
        Body::InitProducerIdRequest { transactional_id, producer_id, producer_epoch, .. } => base_attrs_of(
            api_key,
            api_version,
            correlation_id,
        ) + (match transactional_id {
            Some(t) => seq![attr_str("transactional_id"@, t@)],
            None => Seq::empty(),
        }) + (match producer_id {
            Some(p) => seq![attr_i64("producer_id"@, *p)],
            None => Seq::empty(),
        }) + (match producer_epoch {
            Some(p) => seq![attr_i64("producer_epoch"@, *p as i64)],
            None => Seq::empty(),
        }),
        Body::JoinGroupRequest { group_id, member_id, group_instance_id, .. } => seq![
            attr_i64("correlation_id"@, correlation_id as i64),
            attr_str("group_id"@, group_id@),
            attr_str("member_id"@, member_id@),
        ] + (match group_instance_id {
            Some(g) => seq![attr_str("group_instance_id"@, g@)],
            None => Seq::empty(),
        }),
        Body::SyncGroupRequest { group_id, generation_id, member_id, group_instance_id, .. } => seq![
            attr_i64("correlation_id"@, correlation_id as i64),
            attr_str("group_id"@, group_id@),
            attr_i64("generation_id"@, *generation_id as i64),
            attr_str("member_id"@, member_id@),
        ] + (match group_instance_id {
            Some(g) => seq![attr_str("group_instance_id"@, g@)],
            None => Seq::empty(),
        }),
        Body::TxnOffsetCommitRequest {
            transactional_id,
            group_id,
            producer_id,
            producer_epoch,
            generation_id,
            member_id,
            group_instance_id,
            ..
        } => base_attrs_of(api_key, api_version, correlation_id) + seq![
            attr_str("transactional_id"@, transactional_id@),
            attr_str("group_id"@, group_id@),
            attr_i64("producer_id"@, *producer_id),
            attr_i64("producer_epoch"@, *producer_epoch as i64),
        ] + (match generation_id {
            Some(g) => seq![attr_i64("generation_id"@, *g as i64)],
            None => Seq::empty(),
        }) + (match member_id {
            Some(m) => seq![attr_str("member_id"@, m@)],
            None => Seq::empty(),
        }) + (match group_instance_id {
            Some(g) => seq![attr_str("group_instance_id"@, g@)],
            None => Seq::empty(),
        }),
        _ => base_attrs_of(api_key, api_version, correlation_id),
    }
}

/// The observation span for a request: named by the API, labelled with
/// the request's key parameters.
#[verifier::rlimit(100)]
#[verifier::spinoff_prover]
pub fn request_span(api_key: i16, api_version: i16, correlation_id: i32, body: &Body) -> (r:
    SpanInfo)
    ensures
        r.name@ == span_name_of(body),
        r.fields.deep_view() == span_fields_of(api_key, api_version, correlation_id, body),
{
    let mut v: Vec<Attr> = Vec::new();
    proof {
        assert(v.deep_view() =~= Seq::<AttrV>::empty());
    }
    let name: &'static str = match body {
        Body::AddOffsetsToTxnRequest { transactional_id, producer_id, producer_epoch, group_id } => {
            push_attr(&mut v, "api_key", AttrValue::I64(api_key as i64));
            push_attr(&mut v, "api_version", AttrValue::I64(api_version as i64));
            push_attr(&mut v, "correlation_id", AttrValue::I64(correlation_id as i64));
            push_attr(&mut v, "transactional_id", AttrValue::Str(transactional_id.clone()));
            push_attr(&mut v, "producer_id", AttrValue::I64(*producer_id));
            push_attr(&mut v, "producer_epoch", AttrValue::I64(*producer_epoch as i64));
            push_attr(&mut v, "group_id", AttrValue::Str(group_id.clone()));
            "add_offsets_to_txn"
        },
        Body::EndTxnRequest { transactional_id, producer_id, producer_epoch, committed } => {
            push_attr(&mut v, "api_key", AttrValue::I64(api_key as i64));
            push_attr(&mut v, "api_version", AttrValue::I64(api_version as i64));
            push_attr(&mut v, "correlation_id", AttrValue::I64(correlation_id as i64));
            push_attr(&mut v, "transactional_id", AttrValue::Str(transactional_id.clone()));
            push_attr(&mut v, "producer_id", AttrValue::I64(*producer_id));
            push_attr(&mut v, "producer_epoch", AttrValue::I64(*producer_epoch as i64));
            push_attr(&mut v, "committed", AttrValue::Bool(*committed));
            "end_txn"
        },
        Body::InitProducerIdRequest { transactional_id, producer_id, producer_epoch, .. } => {
            push_attr(&mut v, "api_key", AttrValue::I64(api_key as i64));
            push_attr(&mut v, "api_version", AttrValue::I64(api_version as i64));
            push_attr(&mut v, "correlation_id", AttrValue::I64(correlation_id as i64));
            if let Some(t) = transactional_id {
                push_attr(&mut v, "transactional_id", AttrValue::Str(t.clone()));
            }
            if let Some(p) = producer_id {
                push_attr(&mut v, "producer_id", AttrValue::I64(*p));
            }
            if let Some(p) = producer_epoch {
                push_attr(&mut v, "producer_epoch", AttrValue::I64(*p as i64));
            }
            "init_producer_id"
        },
        Body::JoinGroupRequest { group_id, member_id, group_instance_id, .. } => {
            push_attr(&mut v, "correlation_id", AttrValue::I64(correlation_id as i64));
            push_attr(&mut v, "group_id", AttrValue::Str(group_id.clone()));
            push_attr(&mut v, "member_id", AttrValue::Str(member_id.clone()));
            if let Some(g) = group_instance_id {
                push_attr(&mut v, "group_instance_id", AttrValue::Str(g.clone()));
            }
            "join_group"
        },
        Body::SyncGroupRequest { group_id, generation_id, member_id, group_instance_id, .. } => {
            push_attr(&mut v, "correlation_id", AttrValue::I64(correlation_id as i64));
            push_attr(&mut v, "group_id", AttrValue::Str(group_id.clone()));
            push_attr(&mut v, "generation_id", AttrValue::I64(*generation_id as i64));
            push_attr(&mut v, "member_id", AttrValue::Str(member_id.clone()));
            if let Some(g) = group_instance_id {
                push_attr(&mut v, "group_instance_id", AttrValue::Str(g.clone()));
            }
            "sync_group"
        },
        Body::TxnOffsetCommitRequest {
            transactional_id,
            group_id,
            producer_id,
            producer_epoch,
            generation_id,
            member_id,
            group_instance_id,
            ..
        } => {
            push_attr(&mut v, "api_key", AttrValue::I64(api_key as i64));
            push_attr(&mut v, "api_version", AttrValue::I64(api_version as i64));
            push_attr(&mut v, "correlation_id", AttrValue::I64(correlation_id as i64));
            push_attr(&mut v, "transactional_id", AttrValue::Str(transactional_id.clone()));
            push_attr(&mut v, "group_id", AttrValue::Str(group_id.clone()));
            push_attr(&mut v, "producer_id", AttrValue::I64(*producer_id));
            push_attr(&mut v, "producer_epoch", AttrValue::I64(*producer_epoch as i64));
            if let Some(g) = generation_id {
                push_attr(&mut v, "generation_id", AttrValue::I64(*g as i64));
            }
            if let Some(m) = member_id {
                push_attr(&mut v, "member_id", AttrValue::Str(m.clone()));
            }
            if let Some(g) = group_instance_id {
                push_attr(&mut v, "group_instance_id", AttrValue::Str(g.clone()));
            }
            "txn_offset_commit"
        },
        Body::AddPartitionsToTxnRequest { .. } => {
            push_base_span_fields(&mut v, api_key, api_version, correlation_id);
            "add_partitions_to_txn"
        },
        Body::ApiVersionsRequest { .. } => {
            push_base_span_fields(&mut v, api_key, api_version, correlation_id);
            "api_versions"
        },
        Body::CreateTopicsRequest { .. } => {
            push_base_span_fields(&mut v, api_key, api_version, correlation_id);
            "create_topics"
        },
        Body::DeleteTopicsRequest { .. } => {
            push_base_span_fields(&mut v, api_key, api_version, correlation_id);
            "delete_topics"
        },
        Body::FetchRequest { .. } => {
            push_base_span_fields(&mut v, api_key, api_version, correlation_id);
            "fetch"
        },
        Body::FindCoordinatorRequest { .. } => {
            push_base_span_fields(&mut v, api_key, api_version, correlation_id);
            "find_coordinator"
        },
        Body::LeaveGroupRequest { .. } => {
            push_base_span_fields(&mut v, api_key, api_version, correlation_id);
            "leave_group"
        },
        Body::ListOffsetsRequest { .. } => {
            push_base_span_fields(&mut v, api_key, api_version, correlation_id);
            "list_offsets"
        },
        Body::MetadataRequest { .. } => {
            push_base_span_fields(&mut v, api_key, api_version, correlation_id);
            "metadata"
        },
        Body::OffsetFetchRequest { .. } => {
            push_base_span_fields(&mut v, api_key, api_version, correlation_id);
            "offset_fetch"
        },
        Body::ProduceRequest { .. } => {
            push_base_span_fields(&mut v, api_key, api_version, correlation_id);
            "produce"
        },
        Body::ConsumerGroupDescribeRequest { .. } => {
            push_base_span_fields(&mut v, api_key, api_version, correlation_id);
            "consumer_group_describe"
        },
        Body::DeleteGroupsRequest { .. } => {
            push_base_span_fields(&mut v, api_key, api_version, correlation_id);
            "delete_groups"
        },
        Body::DeleteRecordsRequest { .. } => {
            push_base_span_fields(&mut v, api_key, api_version, correlation_id);
            "delete_records"
        },
        Body::DescribeClusterRequest { .. } => {
            push_base_span_fields(&mut v, api_key, api_version, correlation_id);
            "describe_cluster"
        },
        Body::DescribeConfigsRequest { .. } => {
            push_base_span_fields(&mut v, api_key, api_version, correlation_id);
            "describe_configs"
        },
        Body::DescribeGroupsRequest { .. } => {
            push_base_span_fields(&mut v, api_key, api_version, correlation_id);
            "describe_groups"
        },
        Body::GetTelemetrySubscriptionsRequest { .. } => {
            push_base_span_fields(&mut v, api_key, api_version, correlation_id);
            "get_telemetry_subscriptions"
        },
        Body::HeartbeatRequest { .. } => {
            push_base_span_fields(&mut v, api_key, api_version, correlation_id);
            "heartbeat"
        },
        Body::ListGroupsRequest { .. } => {
            push_base_span_fields(&mut v, api_key, api_version, correlation_id);
            "list_groups"
        },
        Body::ListPartitionReassignmentsRequest { .. } => {
            push_base_span_fields(&mut v, api_key, api_version, correlation_id);
            "list_partition_reassignments"
        },
        Body::OffsetCommitRequest { .. } => {
            push_base_span_fields(&mut v, api_key, api_version, correlation_id);
            "offset_commit"
        },
        _ => {
            push_base_span_fields(&mut v, api_key, api_version, correlation_id);
            "request"
        },
    };
    proof {
        assert(v.deep_view() =~= span_fields_of(api_key, api_version, correlation_id, body));
    }
    SpanInfo { name, fields: v }
}

/// The three fields every span records unless its API picks its own set.
fn push_base_span_fields(v: &mut Vec<Attr>, api_key: i16, api_version: i16, correlation_id: i32)
    ensures
        final(v).deep_view() == old(v).deep_view() + base_attrs_of(
            api_key,
            api_version,
            correlation_id,
        ),
{
    push_attr(v, "api_key", AttrValue::I64(api_key as i64));
    push_attr(v, "api_version", AttrValue::I64(api_version as i64));
    push_attr(v, "correlation_id", AttrValue::I64(correlation_id as i64));
    proof {
        assert(final(v).deep_view() =~= old(v).deep_view() + base_attrs_of(
            api_key,
            api_version,
            correlation_id,
        ));
    }
}

} // verus!
