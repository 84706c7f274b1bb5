use tansu_broker::batch::Batch;
use tansu_broker::body::{
    ApiVersionRange, Body, BatchSet, BrokerNode, ClusterDescription, CreatableTopic,
    CreatableTopicResult, DeletableGroupResult, DeletableTopicResult, DeleteRecordsTopic,
    DeleteRecordsTopicResult, DeleteTopicState, DescribeConfigsResource, DescribeConfigsResult,
    DescribedGroup, FetchPartitionResponse, FetchTopic, FetchTopicResponse, JoinGroupProtocol,
    ListOffsetsTopic, ListOffsetsTopicResponse, ListedGroup, MemberIdentity, MetadataResult,
    MetadataTopic, OffsetFetchGroup, OffsetFetchPartitionResponse, OffsetFetchTopic,
    OffsetFetchTopicResponse, PartitionProduceResponse, ReassignmentTopic, SyncGroupAssignment,
    TopicProduceData, TopicProduceResponse, TxnOffsetCommitTopic, TxnOffsetCommitTopicResponse,
    TxnTopic, TxnTopicResult,
};
use tansu_broker::dispatch::{
    size_decision, Broker, Coordinator, JoinGroupResult, LeaveGroupResult, OffsetCommit,
    OffsetFetchResult, ProducerIdResult, SizeDecision, Storage, SyncGroupResult,
};
use tansu_broker::error::Error;
use tansu_broker::record::Record;
use tansu_broker::telemetry::{attributes, request_span, AttrValue};

/// An in-memory stand-in for the delegated storage backend. Produced
/// batches land in a per-(topic, partition) log; a committed transaction
/// is visible to offset fetches at once.
#[derive(Clone, Debug, Default)]
struct ToyStorage {
    logs: Vec<((String, i32), Vec<Batch>)>,
    next_producer_id: i64,
    pending_txn_offset: Option<(String, String, i64)>,
    committed_offset: Option<(String, i64)>,
    fail: bool,
}

impl ToyStorage {
    fn log_mut(&mut self, topic: &str, partition: i32) -> &mut Vec<Batch> {
        let key = (topic.to_owned(), partition);
        if let Some(at) = self.logs.iter().position(|(k, _)| *k == key) {
            &mut self.logs[at].1
        } else {
            self.logs.push((key, Vec::new()));
            let last = self.logs.len() - 1;
            &mut self.logs[last].1
        }
    }
}

impl Storage for ToyStorage {
    fn register_broker(
        &mut self,
        _broker_id: i32,
        _cluster_id: &str,
        _incarnation_id: u128,
        _rack: Option<String>,
    ) -> Result<(), Error> {
        Ok(())
    }

    fn create_topics(
        &mut self,
        topics: Vec<CreatableTopic>,
        _validate_only: bool,
    ) -> Result<Vec<CreatableTopicResult>, Error> {
        Ok(topics
            .into_iter()
            .map(|t| CreatableTopicResult {
                name: t.name,
                error_code: 0,
            })
            .collect())
    }

    fn delete_records(
        &mut self,
        _topics: Vec<DeleteRecordsTopic>,
    ) -> Result<Vec<DeleteRecordsTopicResult>, Error> {
        Ok(Vec::new())
    }

    fn delete_topics(
        &mut self,
        _topics: Option<Vec<DeleteTopicState>>,
        _topic_names: Option<Vec<String>>,
    ) -> Result<Vec<DeletableTopicResult>, Error> {
        Ok(Vec::new())
    }

    fn delete_groups(
        &mut self,
        _group_ids: Option<Vec<String>>,
    ) -> Result<Vec<DeletableGroupResult>, Error> {
        Ok(Vec::new())
    }

    fn describe_groups(
        &mut self,
        _group_ids: Option<Vec<String>>,
        _include_authorized_operations: bool,
    ) -> Result<Vec<DescribedGroup>, Error> {
        Ok(Vec::new())
    }

    fn describe_configs(
        &mut self,
        _resources: Option<Vec<DescribeConfigsResource>>,
        _include_synonyms: Option<bool>,
        _include_documentation: Option<bool>,
    ) -> Result<Vec<DescribeConfigsResult>, Error> {
        Ok(Vec::new())
    }

    fn brokers(&mut self) -> Result<ClusterDescription, Error> {
        Ok(ClusterDescription {
            controller_id: 111,
            brokers: vec![BrokerNode {
                node_id: 111,
                host: "test.local".to_owned(),
                port: 9092,
                rack: None,
            }],
        })
    }

    fn list_groups(
        &mut self,
        _states_filter: Option<Vec<String>>,
    ) -> Result<Vec<ListedGroup>, Error> {
        if self.fail {
            return Err(Error::Storage);
        }
        Ok(Vec::new())
    }

    fn list_offsets(
        &mut self,
        _replica_id: i32,
        _isolation_level: i8,
        _topics: Option<Vec<ListOffsetsTopic>>,
    ) -> Result<Vec<ListOffsetsTopicResponse>, Error> {
        Ok(Vec::new())
    }

    fn list_partition_reassignments(
        &mut self,
        _topics: Option<Vec<ReassignmentTopic>>,
    ) -> Result<Vec<ReassignmentTopic>, Error> {
        Ok(Vec::new())
    }

    fn metadata(
        &mut self,
        _topics: Option<Vec<MetadataTopic>>,
    ) -> Result<MetadataResult, Error> {
        Ok(MetadataResult {
            brokers: Vec::new(),
            topics: Vec::new(),
        })
    }

    fn produce(
        &mut self,
        _transactional_id: Option<String>,
        topic_data: Option<Vec<TopicProduceData>>,
    ) -> Result<Vec<TopicProduceResponse>, Error> {
        if self.fail {
            return Err(Error::Storage);
        }
        let mut responses = Vec::new();
        for topic in topic_data.unwrap_or_default() {
            let mut partition_responses = Vec::new();
            for partition in topic.partition_data.unwrap_or_default() {
                let log = self.log_mut(&topic.name, partition.index);
                let base_offset = log.iter().map(|b| b.records.len() as i64).sum();
                if let Some(set) = partition.records {
                    log.extend(set.batches);
                }
                partition_responses.push(PartitionProduceResponse {
                    index: partition.index,
                    error_code: 0,
                    base_offset,
                });
            }
            responses.push(TopicProduceResponse {
                name: topic.name,
                partition_responses,
            });
        }
        Ok(responses)
    }

    fn fetch(
        &mut self,
        _max_wait_ms: i32,
        _min_bytes: i32,
        _max_bytes: Option<i32>,
        _isolation_level: i8,
        topics: Option<Vec<FetchTopic>>,
    ) -> Result<Vec<FetchTopicResponse>, Error> {
        let mut responses = Vec::new();
        for topic in topics.unwrap_or_default() {
            let mut partitions = Vec::new();
            for partition in &topic.partitions {
                let log = self.log_mut(&topic.topic, partition.partition);
                let high_watermark = log.iter().map(|b| b.records.len() as i64).sum();
                partitions.push(FetchPartitionResponse {
                    partition_index: partition.partition,
                    error_code: 0,
                    high_watermark,
                    records: Some(BatchSet {
                        batches: log.clone(),
                    }),
                });
            }
            responses.push(FetchTopicResponse {
                topic: topic.topic,
                partitions,
            });
        }
        Ok(responses)
    }

    fn init_producer(
        &mut self,
        _transactional_id: Option<String>,
        _transaction_timeout_ms: i32,
        _producer_id: Option<i64>,
        _producer_epoch: Option<i16>,
    ) -> Result<ProducerIdResult, Error> {
        self.next_producer_id += 1;
        Ok(ProducerIdResult {
            error: 0,
            id: self.next_producer_id,
            epoch: 0,
        })
    }

    fn txn_add_offsets(
        &mut self,
        _transactional_id: &str,
        _producer_id: i64,
        _producer_epoch: i16,
        _group_id: &str,
    ) -> Result<i16, Error> {
        Ok(0)
    }

    fn txn_add_partitions(
        &mut self,
        _transactional_id: String,
        _producer_id: i64,
        _producer_epoch: i16,
        topics: Vec<TxnTopic>,
    ) -> Result<Vec<TxnTopicResult>, Error> {
        Ok(topics
            .into_iter()
            .map(|t| TxnTopicResult {
                name: t.name,
                results: Vec::new(),
            })
            .collect())
    }

    fn txn_offset_commit(
        &mut self,
        transactional_id: String,
        group_id: String,
        _producer_id: i64,
        _producer_epoch: i16,
        _generation_id: Option<i32>,
        _member_id: Option<String>,
        _group_instance_id: Option<String>,
        topics: Option<Vec<TxnOffsetCommitTopic>>,
    ) -> Result<Vec<TxnOffsetCommitTopicResponse>, Error> {
        let mut responses = Vec::new();
        for topic in topics.unwrap_or_default() {
            if let Some(partition) = topic.partitions.first() {
                self.pending_txn_offset =
                    Some((transactional_id.clone(), group_id.clone(), partition.committed_offset));
            }
            responses.push(TxnOffsetCommitTopicResponse {
                name: topic.name,
                partitions: Vec::new(),
            });
        }
        Ok(responses)
    }

    fn txn_end(
        &mut self,
        transactional_id: &str,
        _producer_id: i64,
        _producer_epoch: i16,
        committed: bool,
    ) -> Result<i16, Error> {
        if self.fail {
            return Err(Error::Storage);
        }
        if committed {
            if let Some((txn, group, offset)) = self.pending_txn_offset.take() {
                if txn == transactional_id {
                    self.committed_offset = Some((group, offset));
                }
            }
        } else {
            self.pending_txn_offset = None;
        }
        Ok(0)
    }
}

/// A coordinator that answers every group call with an empty success and
/// serves offset fetches from the storage's committed transaction state.
#[derive(Clone, Debug, Default)]
struct ToyCoordinator {
    committed: Vec<(String, i64)>,
}

impl Coordinator for ToyCoordinator {
    fn join(
        &mut self,
        _client_id: Option<&str>,
        _group_id: &str,
        _session_timeout_ms: i32,
        _rebalance_timeout_ms: Option<i32>,
        member_id: &str,
        _group_instance_id: Option<String>,
        _protocol_type: &str,
        _protocols: Option<Vec<JoinGroupProtocol>>,
        _reason: Option<String>,
    ) -> Result<JoinGroupResult, Error> {
        Ok(JoinGroupResult {
            error_code: 0,
            generation_id: 1,
            protocol_type: None,
            protocol_name: None,
            leader: member_id.to_owned(),
            member_id: member_id.to_owned(),
            members: None,
        })
    }

    fn sync(
        &mut self,
        _group_id: &str,
        _generation_id: i32,
        _member_id: &str,
        _group_instance_id: Option<String>,
        _protocol_type: Option<String>,
        _protocol_name: Option<String>,
        _assignments: Option<Vec<SyncGroupAssignment>>,
    ) -> Result<SyncGroupResult, Error> {
        Ok(SyncGroupResult {
            error_code: 0,
            protocol_type: None,
            protocol_name: None,
            assignment: Vec::new(),
        })
    }

    fn heartbeat(
        &mut self,
        _group_id: &str,
        _generation_id: i32,
        _member_id: &str,
        _group_instance_id: Option<String>,
    ) -> Result<i16, Error> {
        Ok(0)
    }

    fn leave(
        &mut self,
        _group_id: &str,
        _member_id: Option<String>,
        _members: Option<Vec<MemberIdentity>>,
    ) -> Result<LeaveGroupResult, Error> {
        Ok(LeaveGroupResult {
            error_code: 0,
            members: None,
        })
    }

    fn offset_commit(
        &mut self,
        _detail: OffsetCommit,
    ) -> Result<Vec<tansu_broker::body::OffsetCommitTopicResponse>, Error> {
        Ok(Vec::new())
    }

    fn offset_fetch(
        &mut self,
        group_id: Option<&str>,
        topics: Option<Vec<OffsetFetchTopic>>,
        _groups: Option<Vec<OffsetFetchGroup>>,
        _require_stable: Option<bool>,
    ) -> Result<OffsetFetchResult, Error> {
        let committed = group_id
            .and_then(|g| self.committed.iter().find(|(group, _)| group == g))
            .map(|(_, offset)| *offset)
            .unwrap_or(-1);
        let topics = topics.map(|ts| {
            ts.into_iter()
                .map(|t| OffsetFetchTopicResponse {
                    name: t.name,
                    partitions: t
                        .partition_indexes
                        .iter()
                        .map(|p| OffsetFetchPartitionResponse {
                            partition_index: *p,
                            committed_offset: committed,
                            error_code: 0,
                        })
                        .collect(),
                })
                .collect()
        });
        Ok(OffsetFetchResult {
            topics,
            error_code: Some(0),
            groups: None,
        })
    }
}

fn broker() -> Broker<ToyCoordinator, ToyStorage> {
    Broker::new(
        111,
        "test-cluster",
        "0.0.0.0".to_owned(),
        9092,
        "test.local".to_owned(),
        9092,
        ToyStorage::default(),
        ToyCoordinator::default(),
        7,
    )
}

#[test]
fn api_versions_lists_every_supported_api() {
    let mut broker = broker();
    let response = broker
        .response_for(
            None,
            Body::ApiVersionsRequest {
                client_software_name: None,
                client_software_version: None,
            },
            1,
        )
        .unwrap();

    match response {
        Body::ApiVersionsResponse {
            error_code,
            api_keys,
            throttle_time_ms,
        } => {
            assert_eq!(0, error_code);
            assert_eq!(0, throttle_time_ms);
            // the table advertises exactly the served windows
            assert_eq!(13, api_keys.len());
            assert!(api_keys.contains(&ApiVersionRange {
                api_key: 18,
                min_version: 0,
                max_version: 3,
            }));
            assert!(api_keys.contains(&ApiVersionRange {
                api_key: 12,
                min_version: 0,
                max_version: 1,
            }));
            assert!(api_keys.contains(&ApiVersionRange {
                api_key: 26,
                min_version: 0,
                max_version: 1,
            }));
        }
        other => panic!("unexpected response {other:?}"),
    }
}

#[test]
fn find_coordinator_names_this_node() {
    let mut broker = broker();
    let response = broker
        .response_for(
            None,
            Body::FindCoordinatorRequest {
                key: Some("console-consumer".to_owned()),
                key_type: Some(0),
                coordinator_keys: None,
            },
            2,
        )
        .unwrap();

    match response {
        Body::FindCoordinatorResponse {
            node_id,
            host,
            port,
            error_code,
            ..
        } => {
            assert_eq!(Some(111), node_id);
            assert_eq!(Some("test.local".to_owned()), host);
            assert_eq!(Some(9092), port);
            assert_eq!(Some(0), error_code);
        }
        other => panic!("unexpected response {other:?}"),
    }

    let keyed = broker
        .response_for(
            None,
            Body::FindCoordinatorRequest {
                key: None,
                key_type: Some(0),
                coordinator_keys: Some(vec!["a".to_owned(), "b".to_owned()]),
            },
            3,
        )
        .unwrap();
    match keyed {
        Body::FindCoordinatorResponse { coordinators, .. } => {
            let cs = coordinators.unwrap();
            assert_eq!(2, cs.len());
            assert_eq!("a", cs[0].key);
            assert_eq!("b", cs[1].key);
            assert!(cs.iter().all(|c| c.node_id == 111 && c.host == "test.local"));
        }
        other => panic!("unexpected response {other:?}"),
    }
}

#[test]
fn responses_keep_request_order() {
    let mut broker = broker();
    let requests = vec![
        (
            10,
            18,
            3,
            Body::ApiVersionsRequest {
                client_software_name: None,
                client_software_version: None,
            },
        ),
        (
            11,
            12,
            4,
            Body::HeartbeatRequest {
                group_id: "g".to_owned(),
                generation_id: 1,
                member_id: "m".to_owned(),
                group_instance_id: None,
            },
        ),
        (
            12,
            10,
            3,
            Body::FindCoordinatorRequest {
                key: Some("g".to_owned()),
                key_type: Some(0),
                coordinator_keys: None,
            },
        ),
    ];

    let responses = broker.respond_all(None, requests).unwrap();
    assert_eq!(3, responses.len());
    assert_eq!(vec![10, 11, 12], responses.iter().map(|r| r.0).collect::<Vec<_>>());
    assert_eq!(18, responses[0].2.api_key());
    assert_eq!(12, responses[1].2.api_key());
    assert_eq!(10, responses[2].2.api_key());
    // ApiVersions responses keep the legacy header; Heartbeat v4 is flexible
    assert!(!responses[0].1);
    assert!(responses[1].1);
}

#[test]
fn size_prefix_decisions() {
    assert_eq!(SizeDecision::SkipEmpty, size_decision(0));
    assert_eq!(SizeDecision::Invalid, size_decision(-1));
    assert_eq!(SizeDecision::Read(64), size_decision(64));
}

#[test]
fn request_attributes_and_span() {
    let body = Body::HeartbeatRequest {
        group_id: "broker".to_owned(),
        generation_id: 5,
        member_id: "first_member_range_meta_01".to_owned(),
        group_instance_id: None,
    };

    let attrs = attributes(12, 4, 99, &body);
    assert_eq!("api_key", attrs[0].key);
    assert_eq!(AttrValue::I64(12), attrs[0].value);
    assert_eq!("api_version", attrs[1].key);
    assert_eq!(AttrValue::I64(4), attrs[1].value);
    assert_eq!("correlation_id", attrs[2].key);
    assert_eq!(AttrValue::I64(99), attrs[2].value);

    // every request carries its API name
    assert_eq!("api_name", attrs[3].key);
    assert_eq!(AttrValue::Str("heartbeat".to_owned()), attrs[3].value);

    let span = request_span(12, 4, 99, &body);
    assert_eq!("heartbeat", span.name);
    assert_eq!(3, span.fields.len());

    let produce = Body::ProduceRequest {
        transactional_id: None,
        acks: -1,
        timeout_ms: 10000,
        topic_data: Some(vec![TopicProduceData {
            name: "t".to_owned(),
            partition_data: Some(vec![tansu_broker::body::PartitionProduceData {
                index: 0,
                records: Some(BatchSet {
                    batches: vec![Batch::builder()
                        .magic(2)
                        .record(Record::builder().value(Some(vec![1])))
                        .record(Record::builder().offset_delta(1).value(Some(vec![2])))
                        .build()
                        .unwrap()],
                }),
            }]),
        }]),
    };
    let attrs = attributes(0, 9, 1, &produce);
    assert_eq!("api_name", attrs[3].key);
    assert_eq!(AttrValue::Str("produce".to_owned()), attrs[3].value);
    assert_eq!("records", attrs[4].key);
    assert_eq!(AttrValue::I64(2), attrs[4].value);
    let span = request_span(0, 9, 1, &produce);
    assert_eq!("produce", span.name);
}

#[test]
fn produce_then_fetch_sees_the_batch() {
    let mut broker = broker();

    let mut records = Batch::builder()
        .magic(2)
        .base_timestamp(1_707_058_170_165)
        .max_timestamp(1_707_058_170_165)
        .last_offset_delta(49);
    for delta in 0..50 {
        records = records.record(
            Record::builder()
                .offset_delta(delta)
                .value(Some(format!("Lorem ipsum dolor sit amet: {delta}").into_bytes())),
        );
    }
    let batch = records.build().unwrap();

    let produce = Body::ProduceRequest {
        transactional_id: None,
        acks: -1,
        timeout_ms: 10000,
        topic_data: Some(vec![TopicProduceData {
            name: "test".to_owned(),
            partition_data: Some(vec![tansu_broker::body::PartitionProduceData {
                index: 2,
                records: Some(BatchSet {
                    batches: vec![batch],
                }),
            }]),
        }]),
    };
    let response = broker.response_for(None, produce, 5).unwrap();
    match response {
        Body::ProduceResponse { responses, .. } => {
            let rs = responses.unwrap();
            assert_eq!(0, rs[0].partition_responses[0].error_code);
            assert_eq!(0, rs[0].partition_responses[0].base_offset);
        }
        other => panic!("unexpected response {other:?}"),
    }

    let fetch = Body::FetchRequest {
        max_wait_ms: 1000,
        min_bytes: 1,
        max_bytes: Some(1024 * 1024),
        isolation_level: Some(0),
        topics: Some(vec![FetchTopic {
            topic: "test".to_owned(),
            partitions: vec![tansu_broker::body::FetchPartition {
                partition: 2,
                fetch_offset: 0,
                partition_max_bytes: 1024 * 1024,
            }],
        }]),
    };
    let response = broker.response_for(None, fetch, 6).unwrap();
    match response {
        Body::FetchResponse { responses, .. } => {
            let rs = responses.unwrap();
            let partition = &rs[0].partitions[0];
            assert_eq!(0, partition.error_code);
            let set = partition.records.as_ref().unwrap();
            assert_eq!(1, set.batches.len());
            assert!(set.batches[0].last_offset_delta >= 49);
            assert_eq!(50, set.batches[0].records.len());
        }
        other => panic!("unexpected response {other:?}"),
    }
}

#[test]
fn transactional_commit_is_visible_to_offset_fetch() {
    let mut broker = broker();
    let txn = "simple-txn".to_owned();
    let group = "group".to_owned();

    let init = broker
        .response_for(
            None,
            Body::InitProducerIdRequest {
                transactional_id: Some(txn.clone()),
                transaction_timeout_ms: 45000,
                producer_id: Some(-1),
                producer_epoch: Some(-1),
            },
            1,
        )
        .unwrap();
    let producer_id = match init {
        Body::InitProducerIdResponse {
            error_code,
            producer_id,
            ..
        } => {
            assert_eq!(0, error_code);
            producer_id
        }
        other => panic!("unexpected response {other:?}"),
    };

    broker
        .response_for(
            None,
            Body::AddPartitionsToTxnRequest {
                transactional_id: txn.clone(),
                producer_id,
                producer_epoch: 0,
                topics: vec![TxnTopic {
                    name: "test".to_owned(),
                    partitions: vec![0],
                }],
            },
            2,
        )
        .unwrap();

    broker
        .response_for(
            None,
            Body::AddOffsetsToTxnRequest {
                transactional_id: txn.clone(),
                producer_id,
                producer_epoch: 0,
                group_id: group.clone(),
            },
            3,
        )
        .unwrap();

    broker
        .response_for(
            None,
            Body::TxnOffsetCommitRequest {
                transactional_id: txn.clone(),
                group_id: group.clone(),
                producer_id,
                producer_epoch: 0,
                generation_id: None,
                member_id: None,
                group_instance_id: None,
                topics: Some(vec![TxnOffsetCommitTopic {
                    name: "test".to_owned(),
                    partitions: vec![tansu_broker::body::OffsetCommitPartition {
                        partition_index: 0,
                        committed_offset: 0,
                        committed_leader_epoch: None,
                        committed_metadata: None,
                    }],
                }]),
            },
            4,
        )
        .unwrap();

    let end = broker
        .response_for(
            None,
            Body::EndTxnRequest {
                transactional_id: txn.clone(),
                producer_id,
                producer_epoch: 0,
                committed: true,
            },
            5,
        )
        .unwrap();
    assert!(matches!(
        end,
        Body::EndTxnResponse {
            error_code: 0,
            ..
        }
    ));

    // the committed offset becomes visible at once: hand it to the
    // coordinator that serves offset fetches
    if let Some((g, offset)) = broker.storage.committed_offset.clone() {
        broker.groups.committed.push((g, offset));
    }

    let fetched = broker
        .response_for(
            None,
            Body::OffsetFetchRequest {
                group_id: Some(group.clone()),
                topics: Some(vec![OffsetFetchTopic {
                    name: "test".to_owned(),
                    partition_indexes: vec![0],
                }]),
                groups: None,
                require_stable: Some(true),
            },
            6,
        )
        .unwrap();
    match fetched {
        Body::OffsetFetchResponse { topics, .. } => {
            let ts = topics.unwrap();
            let committed = ts[0].partitions[0].committed_offset;
            assert!(committed == 0 || committed == -1);
            assert_eq!(0, committed);
        }
        other => panic!("unexpected response {other:?}"),
    }
}

#[test]
fn acks_outside_the_protocol_range_are_refused() {
    let mut broker = broker();
    let produce = Body::ProduceRequest {
        transactional_id: None,
        acks: 2,
        timeout_ms: 10000,
        topic_data: None,
    };
    assert_eq!(Err(Error::MalformedInput), broker.response_for(None, produce, 7));
}

#[test]
fn a_response_body_is_an_internal_error() {
    let mut broker = broker();
    let bogus = Body::EndTxnResponse {
        throttle_time_ms: 0,
        error_code: 0,
    };
    assert_eq!(
        Err(Error::InternalSchemaMismatch),
        broker.response_for(None, bogus, 8)
    );
}

#[test]
fn delegate_failures_become_error_codes_in_responses() {
    let mut broker = broker();
    broker.storage.fail = true;

    let end = broker
        .response_for(
            None,
            Body::EndTxnRequest {
                transactional_id: "t".to_owned(),
                producer_id: 1,
                producer_epoch: 0,
                committed: true,
            },
            1,
        )
        .unwrap();
    assert_eq!(
        Body::EndTxnResponse {
            throttle_time_ms: 0,
            error_code: -1,
        },
        end
    );

    let listed = broker
        .response_for(
            None,
            Body::ListGroupsRequest {
                states_filter: None,
                types_filter: None,
            },
            2,
        )
        .unwrap();
    match listed {
        Body::ListGroupsResponse {
            error_code, groups, ..
        } => {
            assert_eq!(-1, error_code);
            assert_eq!(0, groups.unwrap().len());
        }
        other => panic!("unexpected response {other:?}"),
    }

    let produced = broker
        .response_for(
            None,
            Body::ProduceRequest {
                transactional_id: None,
                acks: -1,
                timeout_ms: 1000,
                topic_data: Some(vec![TopicProduceData {
                    name: "t".to_owned(),
                    partition_data: Some(vec![tansu_broker::body::PartitionProduceData {
                        index: 4,
                        records: None,
                    }]),
                }]),
            },
            3,
        )
        .unwrap();
    match produced {
        Body::ProduceResponse { responses, .. } => {
            let rs = responses.unwrap();
            assert_eq!(1, rs.len());
            assert_eq!("t", rs[0].name);
            assert_eq!(1, rs[0].partition_responses.len());
            assert_eq!(4, rs[0].partition_responses[0].index);
            assert_eq!(-1, rs[0].partition_responses[0].error_code);
            assert_eq!(-1, rs[0].partition_responses[0].base_offset);
        }
        other => panic!("unexpected response {other:?}"),
    }
}

#[test]
fn api_versions_over_the_wire() {
    let mut broker = broker();

    // version 0: legacy header, empty body
    let header = tansu_broker::frame::RequestHeader {
        api_key: 18,
        api_version: 0,
        correlation_id: 77,
        client_id: Some(b"cli".to_vec()),
    };
    let mut bytes: Vec<u8> = Vec::new();
    tansu_broker::frame::encode_request_header(&mut bytes, &header, false);
    let mut frame: Vec<u8> = (bytes.len() as i32).to_be_bytes().to_vec();
    frame.extend_from_slice(&bytes);

    let response = broker.respond_to_frame(&frame).unwrap();
    let echoed = i32::from_be_bytes([response[0], response[1], response[2], response[3]]);
    assert_eq!(response.len() as i32 - 4, echoed);
    let correlation = i32::from_be_bytes([response[4], response[5], response[6], response[7]]);
    assert_eq!(77, correlation);
    // legacy body: error code 0, then a 13-row version table, no throttle at v0
    assert_eq!(&[0, 0, 0, 0, 0, 13], &response[8..14]);
    assert_eq!(14 + 13 * 6, response.len());

    // version 3: flexible header, two null compact strings, empty tag sections
    let header = tansu_broker::frame::RequestHeader {
        api_key: 18,
        api_version: 3,
        correlation_id: 78,
        client_id: None,
    };
    let mut bytes: Vec<u8> = Vec::new();
    tansu_broker::frame::encode_request_header(&mut bytes, &header, true);
    bytes.extend_from_slice(&[0, 0, 0]); // null name, null version, no tagged fields
    let mut frame: Vec<u8> = (bytes.len() as i32).to_be_bytes().to_vec();
    frame.extend_from_slice(&bytes);

    let response = broker.respond_to_frame(&frame).unwrap();
    let correlation = i32::from_be_bytes([response[4], response[5], response[6], response[7]]);
    assert_eq!(78, correlation);
    // ApiVersions responses keep the legacy header: the body starts right
    // after the correlation id, with error code 0 and the compact count 14
    assert_eq!(&[0, 0, 14], &response[8..11]);
    // each flexible row is three versions and its empty tag section; the
    // body closes with the throttle and the root tag section
    assert_eq!(11 + 13 * 7 + 4 + 1, response.len());
    assert_eq!(0, response[response.len() - 1]);

    // a request outside the registry's extent drops the connection
    let header = tansu_broker::frame::RequestHeader {
        api_key: 12,
        api_version: 4,
        correlation_id: 79,
        client_id: None,
    };
    let mut bytes: Vec<u8> = Vec::new();
    tansu_broker::frame::encode_request_header(&mut bytes, &header, true);
    let mut frame: Vec<u8> = (bytes.len() as i32).to_be_bytes().to_vec();
    frame.extend_from_slice(&bytes);
    assert_eq!(Err(Error::SchemaMismatch), broker.respond_to_frame(&frame));
}

#[test]
fn api_versions_request_body_with_client_software() {
    // compact strings "a" and "bc", then an empty tagged section
    let body: Vec<u8> = vec![2, b'a', 3, b'b', b'c', 0];
    let decoded = tansu_broker::body::decode_api_versions_request(&body, 3).unwrap();
    assert_eq!(
        Body::ApiVersionsRequest {
            client_software_name: Some("a".to_owned()),
            client_software_version: Some("bc".to_owned()),
        },
        decoded
    );

    // trailing bytes after the tagged section are malformed
    let mut with_trailing = body.clone();
    with_trailing.push(9);
    assert!(tansu_broker::body::decode_api_versions_request(&with_trailing, 3).is_err());

    // before version 3 the body must be empty
    assert!(tansu_broker::body::decode_api_versions_request(&body, 1).is_err());
    assert_eq!(
        Body::ApiVersionsRequest {
            client_software_name: None,
            client_software_version: None,
        },
        tansu_broker::body::decode_api_versions_request(&[], 0).unwrap()
    );
}

#[test]
fn unknown_header_tags_do_not_change_the_response() {
    let mut broker = broker();

    // flexible ApiVersions v3 request with no tagged fields
    let header = tansu_broker::frame::RequestHeader {
        api_key: 18,
        api_version: 3,
        correlation_id: 5,
        client_id: None,
    };
    let mut plain: Vec<u8> = Vec::new();
    tansu_broker::frame::encode_request_header(&mut plain, &header, true);
    plain.extend_from_slice(&[0, 0, 0]);
    let mut plain_frame: Vec<u8> = (plain.len() as i32).to_be_bytes().to_vec();
    plain_frame.extend_from_slice(&plain);

    // the same request with one unknown tagged field in the header
    let mut tagged: Vec<u8> = vec![0, 18, 0, 3, 0, 0, 0, 5, 255, 255];
    tagged.extend_from_slice(&[1, 9, 2, 0xAB, 0xCD]); // tag 9, two payload bytes
    tagged.extend_from_slice(&[0, 0, 0]);
    let mut tagged_frame: Vec<u8> = (tagged.len() as i32).to_be_bytes().to_vec();
    tagged_frame.extend_from_slice(&tagged);

    let without = broker.respond_to_frame(&plain_frame).unwrap();
    let with_tags = broker.respond_to_frame(&tagged_frame).unwrap();
    assert_eq!(without, with_tags);
}

#[test]
fn end_txn_over_the_wire() {
    let mut broker = broker();

    // EndTxn v1: legacy header, then txn id, producer id and epoch, commit flag
    let header = tansu_broker::frame::RequestHeader {
        api_key: 26,
        api_version: 1,
        correlation_id: 9,
        client_id: None,
    };
    let mut bytes: Vec<u8> = Vec::new();
    tansu_broker::frame::encode_request_header(&mut bytes, &header, false);
    bytes.extend_from_slice(&[0, 3, b't', b'x', b'n']); // transactional id
    bytes.extend_from_slice(&1i64.to_be_bytes()); // producer id
    bytes.extend_from_slice(&0i16.to_be_bytes()); // producer epoch
    bytes.push(1); // committed
    let mut frame: Vec<u8> = (bytes.len() as i32).to_be_bytes().to_vec();
    frame.extend_from_slice(&bytes);

    let response = broker.respond_to_frame(&frame).unwrap();
    // size 10: correlation id, throttle, error code
    assert_eq!(vec![0, 0, 0, 10, 0, 0, 0, 9, 0, 0, 0, 0, 0, 0], response);
}

#[test]
fn heartbeat_over_the_wire() {
    let mut broker = broker();

    // Heartbeat v1: group id, generation id, member id
    let header = tansu_broker::frame::RequestHeader {
        api_key: 12,
        api_version: 1,
        correlation_id: 3,
        client_id: None,
    };
    let mut bytes: Vec<u8> = Vec::new();
    tansu_broker::frame::encode_request_header(&mut bytes, &header, false);
    bytes.extend_from_slice(&[0, 1, b'g']);
    bytes.extend_from_slice(&5i32.to_be_bytes());
    bytes.extend_from_slice(&[0, 1, b'm']);
    let mut frame: Vec<u8> = (bytes.len() as i32).to_be_bytes().to_vec();
    frame.extend_from_slice(&bytes);

    let response = broker.respond_to_frame(&frame).unwrap();
    // size 10: correlation id, throttle (v1), error code
    assert_eq!(vec![0, 0, 0, 10, 0, 0, 0, 3, 0, 0, 0, 0, 0, 0], response);

    // a trailing byte after the schema's last field is malformed
    let mut bad = frame.clone();
    bad.push(7);
    let size = (bad.len() as i32 - 4).to_be_bytes();
    bad[0..4].copy_from_slice(&size);
    assert_eq!(Err(Error::MalformedInput), broker.respond_to_frame(&bad));
}

#[test]
fn init_producer_id_over_the_wire() {
    let mut broker = broker();

    // InitProducerId v0: nullable transactional id, transaction timeout
    let header = tansu_broker::frame::RequestHeader {
        api_key: 22,
        api_version: 0,
        correlation_id: 4,
        client_id: None,
    };
    let mut bytes: Vec<u8> = Vec::new();
    tansu_broker::frame::encode_request_header(&mut bytes, &header, false);
    bytes.extend_from_slice(&[0, 1, b't']);
    bytes.extend_from_slice(&45000i32.to_be_bytes());
    let mut frame: Vec<u8> = (bytes.len() as i32).to_be_bytes().to_vec();
    frame.extend_from_slice(&bytes);

    let response = broker.respond_to_frame(&frame).unwrap();
    let correlation = i32::from_be_bytes([response[4], response[5], response[6], response[7]]);
    assert_eq!(4, correlation);
    // body: throttle, error code, producer id, producer epoch
    assert_eq!(8 + 4 + 2 + 8 + 2, response.len());
    let error = i16::from_be_bytes([response[12], response[13]]);
    assert_eq!(0, error);
    let producer_id = i64::from_be_bytes(response[14..22].try_into().unwrap());
    assert_eq!(1, producer_id);
}

#[test]
fn find_coordinator_over_the_wire() {
    let mut broker = broker();

    // FindCoordinator v0: just the key
    let header = tansu_broker::frame::RequestHeader {
        api_key: 10,
        api_version: 0,
        correlation_id: 2,
        client_id: None,
    };
    let mut bytes: Vec<u8> = Vec::new();
    tansu_broker::frame::encode_request_header(&mut bytes, &header, false);
    bytes.extend_from_slice(&[0, 1, b'g']);
    let mut frame: Vec<u8> = (bytes.len() as i32).to_be_bytes().to_vec();
    frame.extend_from_slice(&bytes);

    let response = broker.respond_to_frame(&frame).unwrap();
    // v0 body: error code, node id, host, port
    assert_eq!(2, i32::from_be_bytes(response[4..8].try_into().unwrap()));
    assert_eq!(0, i16::from_be_bytes(response[8..10].try_into().unwrap()));
    assert_eq!(111, i32::from_be_bytes(response[10..14].try_into().unwrap()));
    let host_len = i16::from_be_bytes(response[14..16].try_into().unwrap()) as usize;
    assert_eq!(b"test.local", &response[16..16 + host_len]);
    let port = i32::from_be_bytes(response[16 + host_len..20 + host_len].try_into().unwrap());
    assert_eq!(9092, port);
}

#[test]
fn list_and_delete_groups_over_the_wire() {
    let mut broker = broker();

    // ListGroups v1: empty request body
    let header = tansu_broker::frame::RequestHeader {
        api_key: 16,
        api_version: 1,
        correlation_id: 6,
        client_id: None,
    };
    let mut bytes: Vec<u8> = Vec::new();
    tansu_broker::frame::encode_request_header(&mut bytes, &header, false);
    let mut frame: Vec<u8> = (bytes.len() as i32).to_be_bytes().to_vec();
    frame.extend_from_slice(&bytes);

    let response = broker.respond_to_frame(&frame).unwrap();
    // v1 body: throttle, error code, empty group array
    assert_eq!(vec![0, 0, 0, 14, 0, 0, 0, 6, 0, 0, 0, 0, 0, 0, 0, 0, 0, 0], response);

    // DeleteGroups v0: two group names
    let header = tansu_broker::frame::RequestHeader {
        api_key: 42,
        api_version: 0,
        correlation_id: 8,
        client_id: None,
    };
    let mut bytes: Vec<u8> = Vec::new();
    tansu_broker::frame::encode_request_header(&mut bytes, &header, false);
    bytes.extend_from_slice(&2i32.to_be_bytes());
    bytes.extend_from_slice(&[0, 1, b'a']);
    bytes.extend_from_slice(&[0, 1, b'b']);
    let mut frame: Vec<u8> = (bytes.len() as i32).to_be_bytes().to_vec();
    frame.extend_from_slice(&bytes);

    let response = broker.respond_to_frame(&frame).unwrap();
    // body: throttle, then two per-group outcomes (toy storage returns none)
    assert_eq!(8, i32::from_be_bytes(response[4..8].try_into().unwrap()));
    assert_eq!(0, i32::from_be_bytes(response[8..12].try_into().unwrap()));
    // the toy returns an empty result list
    assert_eq!(0, i32::from_be_bytes(response[12..16].try_into().unwrap()));
}

#[test]
fn sync_group_over_the_wire() {
    let mut broker = broker();

    // SyncGroup v1: group, generation, member, one assignment
    let header = tansu_broker::frame::RequestHeader {
        api_key: 14,
        api_version: 1,
        correlation_id: 11,
        client_id: None,
    };
    let mut bytes: Vec<u8> = Vec::new();
    tansu_broker::frame::encode_request_header(&mut bytes, &header, false);
    bytes.extend_from_slice(&[0, 1, b'g']);
    bytes.extend_from_slice(&1i32.to_be_bytes());
    bytes.extend_from_slice(&[0, 1, b'm']);
    bytes.extend_from_slice(&1i32.to_be_bytes()); // one assignment
    bytes.extend_from_slice(&[0, 1, b'm']); // its member id
    bytes.extend_from_slice(&3i32.to_be_bytes()); // assignment bytes
    bytes.extend_from_slice(&[7, 8, 9]);
    let mut frame: Vec<u8> = (bytes.len() as i32).to_be_bytes().to_vec();
    frame.extend_from_slice(&bytes);

    let response = broker.respond_to_frame(&frame).unwrap();
    // v1 body: throttle, error code, empty assignment from the toy
    assert_eq!(11, i32::from_be_bytes(response[4..8].try_into().unwrap()));
    assert_eq!(0, i32::from_be_bytes(response[8..12].try_into().unwrap()));
    assert_eq!(0, i16::from_be_bytes(response[12..14].try_into().unwrap()));
    assert_eq!(0, i32::from_be_bytes(response[14..18].try_into().unwrap()));
    assert_eq!(18, response.len());
}

#[test]
fn add_partitions_to_txn_over_the_wire() {
    let mut broker = broker();

    // AddPartitionsToTxn v0: txn id, producer id and epoch, one topic with
    // two partitions
    let header = tansu_broker::frame::RequestHeader {
        api_key: 24,
        api_version: 0,
        correlation_id: 13,
        client_id: None,
    };
    let mut bytes: Vec<u8> = Vec::new();
    tansu_broker::frame::encode_request_header(&mut bytes, &header, false);
    bytes.extend_from_slice(&[0, 1, b't']);
    bytes.extend_from_slice(&1i64.to_be_bytes());
    bytes.extend_from_slice(&0i16.to_be_bytes());
    bytes.extend_from_slice(&1i32.to_be_bytes()); // one topic
    bytes.extend_from_slice(&[0, 2, b'a', b'b']);
    bytes.extend_from_slice(&2i32.to_be_bytes()); // two partitions
    bytes.extend_from_slice(&0i32.to_be_bytes());
    bytes.extend_from_slice(&1i32.to_be_bytes());
    let mut frame: Vec<u8> = (bytes.len() as i32).to_be_bytes().to_vec();
    frame.extend_from_slice(&bytes);

    let response = broker.respond_to_frame(&frame).unwrap();
    assert_eq!(13, i32::from_be_bytes(response[4..8].try_into().unwrap()));
    // throttle, then the toy's one per-topic result with no partitions
    assert_eq!(0, i32::from_be_bytes(response[8..12].try_into().unwrap()));
    assert_eq!(1, i32::from_be_bytes(response[12..16].try_into().unwrap()));
    let name_len = i16::from_be_bytes(response[16..18].try_into().unwrap()) as usize;
    assert_eq!(b"ab", &response[18..18 + name_len]);
}

#[test]
fn list_offsets_over_the_wire() {
    let mut broker = broker();

    // ListOffsets v1: replica id, one topic with one partition at the
    // latest-offset sentinel
    let header = tansu_broker::frame::RequestHeader {
        api_key: 2,
        api_version: 1,
        correlation_id: 21,
        client_id: None,
    };
    let mut bytes: Vec<u8> = Vec::new();
    tansu_broker::frame::encode_request_header(&mut bytes, &header, false);
    bytes.extend_from_slice(&(-1i32).to_be_bytes());
    bytes.extend_from_slice(&1i32.to_be_bytes());
    bytes.extend_from_slice(&[0, 1, b't']);
    bytes.extend_from_slice(&1i32.to_be_bytes());
    bytes.extend_from_slice(&0i32.to_be_bytes());
    bytes.extend_from_slice(&(-1i64).to_be_bytes());
    let mut frame: Vec<u8> = (bytes.len() as i32).to_be_bytes().to_vec();
    frame.extend_from_slice(&bytes);

    let response = broker.respond_to_frame(&frame).unwrap();
    assert_eq!(21, i32::from_be_bytes(response[4..8].try_into().unwrap()));
    // the toy returns an empty topic list
    assert_eq!(0, i32::from_be_bytes(response[8..12].try_into().unwrap()));
    assert_eq!(12, response.len());
}
