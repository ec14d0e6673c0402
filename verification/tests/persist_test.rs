use arroyo_controller::checkpoint::{JobCheckpointEventType, JobCheckpointSpan};
use arroyo_controller::metrics::{
    collect_metrics, find_label, get_metric_name, parse_u32, LabelPair, LabeledSample,
    MetricFamily, MetricName,
};
use arroyo_controller::persist::{
    db_state_name, decode_span, encode_span, epoch_from_db, epoch_to_db, parse_db_state,
    parse_span_event, span_event_name, DbCheckpointState,
};
use arroyo_controller::rest_utils::{
    map_delete_err, map_insert_err, paginate_results, validate_pagination_params, DbError,
};
use arroyo_controller::running::{
    progress_error_transition, should_reset_restarts, stop_transition, ttl_remaining, Running,
    RunningTransition,
};
use arroyo_controller::controller::{JobConfig, RestartMode, SqlStopMode, StopMode};

fn all_states() -> Vec<DbCheckpointState> {
    vec![
        DbCheckpointState::InProgress,
        DbCheckpointState::Committing,
        DbCheckpointState::Ready,
        DbCheckpointState::Compacting,
        DbCheckpointState::Compacted,
    ]
}

#[test]
fn db_state_names_round_trip() {
    for s in all_states() {
        assert_eq!(parse_db_state(&db_state_name(s)), Some(s));
    }
    assert_eq!(db_state_name(DbCheckpointState::InProgress), "inprogress");
    assert_eq!(parse_db_state(&"nonsense".to_string()), None);
}

#[test]
fn epochs_round_trip_through_the_signed_column() {
    assert_eq!(epoch_to_db(0), Some(0));
    assert_eq!(epoch_to_db(0x7fff_ffff), Some(0x7fff_ffff));
    assert_eq!(epoch_to_db(0x8000_0000), None);
    assert_eq!(epoch_from_db(42), Some(42));
    assert_eq!(epoch_from_db(-1), None);
    assert_eq!(epoch_from_db(epoch_to_db(7).unwrap()), Some(7));
}

#[test]
fn spans_round_trip_through_their_stored_form() {
    let span = JobCheckpointSpan {
        event: JobCheckpointEventType::WritingMetadata,
        start_micros: 5,
        finish_micros: Some(9),
    };
    let stored = encode_span(&span);
    assert_eq!(stored.event, "writing_metadata");
    assert_eq!(decode_span(&stored), Some(span));
    for e in [
        JobCheckpointEventType::Checkpointing,
        JobCheckpointEventType::CheckpointingOperators,
        JobCheckpointEventType::WritingMetadata,
        JobCheckpointEventType::Committing,
        JobCheckpointEventType::Compacting,
    ] {
        assert_eq!(parse_span_event(&span_event_name(e)), Some(e));
    }
}

#[test]
fn pagination_is_validated() {
    // A zero limit is rejected.
    let err = validate_pagination_params(None, Some(0)).unwrap_err();
    assert_eq!(err.status_code, 400);
    assert_eq!(err.message, "Limit must be greater than 0");
    // A missing limit defaults to ten; the fetch limit is one more.
    let (after, fetch) = validate_pagination_params(Some("key".to_string()), None).unwrap();
    assert_eq!(after.as_deref(), Some("key"));
    assert_eq!(fetch, 11);
    let (_, fetch) = validate_pagination_params(None, Some(25)).unwrap();
    assert_eq!(fetch, 26);
}

#[test]
fn pagination_trims_the_probe_row() {
    let (page, more) = paginate_results(vec![1, 2, 3], 3);
    assert!(more);
    assert_eq!(page, vec![1, 2]);
    let (page, more) = paginate_results(vec![1, 2], 3);
    assert!(!more);
    assert_eq!(page, vec![1, 2]);
}

#[test]
fn db_errors_map_to_responses() {
    let dup = map_insert_err("pipeline", DbError::DuplicateViolation);
    assert_eq!(dup.status_code, 400);
    assert_eq!(dup.message, "pipeline with that name already exists");
    let fk = map_delete_err("connection", "pipeline p1", DbError::ForeignKeyViolation);
    assert_eq!(fk.status_code, 400);
    assert_eq!(
        fk.message,
        "Cannot delete connection; it is still being used by pipeline p1"
    );
    let other = map_insert_err("pipeline", DbError::Other("boom".to_string()));
    assert_eq!(other.status_code, 500);
    assert_eq!(other.message, "boom");
}

#[test]
fn running_transitions_follow_the_policy() {
    // A preview job (one with a lifetime) never restarts.
    assert!(matches!(
        progress_error_transition(true, 0, 10),
        RunningTransition::Fatal(_)
    ));
    // A used-up restart budget is fatal; minus one means unbounded.
    assert!(matches!(
        progress_error_transition(false, 10, 10),
        RunningTransition::Fatal(_)
    ));
    assert!(matches!(
        progress_error_transition(false, 100, -1),
        RunningTransition::Recovering
    ));
    assert!(matches!(
        progress_error_transition(false, 2, 10),
        RunningTransition::Recovering
    ));
}

#[test]
fn ttl_and_health_checks() {
    assert_eq!(ttl_remaining(Some(5_000_000), 1_000_000), Some(4_000_000));
    assert_eq!(ttl_remaining(Some(5_000_000), 9_000_000), Some(0));
    assert_eq!(ttl_remaining(None, 9_000_000), None);
    assert!(should_reset_restarts(1, 10, 5));
    assert!(!should_reset_restarts(0, 10, 5));
    assert!(!should_reset_restarts(3, 5, 5));
}

#[test]
fn stop_wishes_map_to_transitions() {
    let mut config = JobConfig {
        id: "j".to_string(),
        organization_id: "o".to_string(),
        checkpoint_interval_micros: 60_000_000,
        ttl_micros: None,
        restart_nonce: 0,
        parallelism_overrides: vec![],
        stop_mode: SqlStopMode::Immediate,
        restart_mode: RestartMode::Safe,
    };
    assert!(matches!(
        stop_transition(&config),
        Some(RunningTransition::Stopping(StopMode::Immediate))
    ));
    config.stop_mode = SqlStopMode::NoStop;
    assert!(stop_transition(&config).is_none());
    let running = Running {};
    assert_eq!(running.name(), "Running");
}

#[test]
fn metric_names_and_labels_parse() {
    assert_eq!(
        get_metric_name(&"arroyo_worker_messages_recv".to_string()),
        Some(MetricName::MessagesRecv)
    );
    assert_eq!(get_metric_name(&"arroyo_worker_unknown".to_string()), None);
    assert_eq!(parse_u32(&"123".to_string()), Some(123));
    assert_eq!(parse_u32(&"".to_string()), None);
    assert_eq!(parse_u32(&"12a".to_string()), None);
    assert_eq!(parse_u32(&"4294967295".to_string()), Some(u32::MAX));
    assert_eq!(parse_u32(&"4294967296".to_string()), None);
    let labels = vec![
        LabelPair {
            name: Some("subtask_idx".to_string()),
            value: Some("2".to_string()),
        },
        LabelPair {
            name: None,
            value: Some("ignored".to_string()),
        },
    ];
    assert_eq!(find_label(&labels, "subtask_idx"), Some("2".to_string()));
    assert_eq!(find_label(&labels, "node_id"), None);
}

#[test]
fn metrics_responses_become_table_updates() {
    let families = vec![MetricFamily {
        name: Some("arroyo_worker_bytes_sent".to_string()),
        metric: vec![
            LabeledSample {
                label: vec![
                    LabelPair {
                        name: Some("subtask_idx".to_string()),
                        value: Some("0".to_string()),
                    },
                    LabelPair {
                        name: Some("node_id".to_string()),
                        value: Some("1".to_string()),
                    },
                ],
                counter: Some(Some(42)),
                gauge: None,
            },
            // A sample for an unknown node yields nothing.
            LabeledSample {
                label: vec![
                    LabelPair {
                        name: Some("subtask_idx".to_string()),
                        value: Some("0".to_string()),
                    },
                    LabelPair {
                        name: Some("node_id".to_string()),
                        value: Some("9".to_string()),
                    },
                ],
                counter: Some(Some(7)),
                gauge: None,
            },
        ],
    }];
    let mut node_index = std::collections::HashMap::new();
    node_index.insert(1u32, 0u32);
    let updates = collect_metrics(&families, &node_index);
    assert_eq!(updates.len(), 1);
    assert_eq!(updates[0].operator_index, 0);
    assert_eq!(updates[0].subtask_index, 0);
    assert_eq!(updates[0].metric, MetricName::BytesSent);
    assert_eq!(updates[0].value, 42);
}
