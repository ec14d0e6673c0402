use arroyo_controller::checkpoint::{
    CheckpointState, CheckpointingOrCommittingState, JobCheckpointEventType, TaskCheckpointEvent,
    TaskCheckpointEventType, TaskCheckpointFinished,
};
use arroyo_controller::controller::{
    CleanupOutcome, ControllerProgress, JobConfig, JobController, PipelineConfig, RestartMode,
    SqlStopMode, StopMode,
};
use arroyo_controller::model::{
    ControllerAction, ControllerError, JobState, RunningJobModel, RunningMessage, TaskState,
    TaskStatus, TaskStatusEntry, WorkerState, WorkerStatus,
};
use arroyo_controller::controller::JobMessage;
use arroyo_controller::persist::{CoordinationRowUpdate, DbCheckpointState};
use arroyo_controller::running::{Running, RunningTransition};
use arroyo_controller::program::{LogicalNode, LogicalProgram, OperatorInfo};
use arroyo_controller::types::WorkerId;

fn test_program() -> LogicalProgram {
    LogicalProgram {
        nodes: vec![LogicalNode {
            node_id: 1,
            description: "source".to_string(),
            parallelism: 2,
            operator_chain: vec![OperatorInfo {
                operator_id: "op-1".to_string(),
            }],
            is_source: true,
        }],
    }
}

fn test_config() -> JobConfig {
    JobConfig {
        id: "job-1".to_string(),
        organization_id: "org-1".to_string(),
        checkpoint_interval_micros: 60_000_000,
        ttl_micros: None,
        restart_nonce: 0,
        parallelism_overrides: vec![],
        stop_mode: SqlStopMode::NoStop,
        restart_mode: RestartMode::Safe,
    }
}

fn test_controller() -> JobController {
    JobController::new(
        test_config(),
        test_program(),
        0,
        0,
        vec![WorkerId(10)],
        None,
        1_000_000,
    )
}

fn finished_report(subtask_index: u32, epoch: u32) -> TaskCheckpointFinished {
    TaskCheckpointFinished {
        time_micros: 2_000_000,
        operator_id: "op-1".to_string(),
        subtask_index,
        epoch,
        committing_data: None,
    }
}

fn pipeline() -> PipelineConfig {
    PipelineConfig {
        compaction_enabled: false,
        worker_heartbeat_timeout_micros: 30_000_000,
        healthy_duration_micros: 120_000_000,
        allowed_restarts: 10,
    }
}

#[test]
fn new_controller_enumerates_tasks() {
    let c = test_controller();
    assert_eq!(c.model.tasks.len(), 2);
    assert_eq!(c.model.tasks[0].node_id, 1);
    assert_eq!(c.model.tasks[0].subtask_index, 0);
    assert_eq!(c.model.tasks[1].subtask_index, 1);
    assert!(matches!(c.model.tasks[0].status.state, TaskState::Running));
    assert_eq!(c.model.workers.len(), 1);
    assert!(c.model.checkpoint_state.is_none());
    // The first checkpoint is staggered within one interval of creation.
    assert!(c.model.last_checkpoint_micros >= 1_000_000);
    assert!(c.model.last_checkpoint_micros < 1_000_000 + 60_000_000);
    assert_eq!(c.operator_parallelism(1), Some(2));
    assert_eq!(c.operator_parallelism(9), None);
}

#[test]
fn happy_checkpoint_without_commit_work() {
    // A checkpoint over one node with two subtasks and no commit work ends
    // with the row persisted ready and all spans closed.
    let mut c = test_controller();
    let req = c.model.start_checkpoint(2_000_000, false).unwrap();
    assert_eq!(req.epoch, 1);
    assert_eq!(req.min_epoch, 0);
    assert!(!req.then_stop && !req.is_commit);
    c.model
        .install_checkpoint("cp-test0000000000000000".to_string(), 2_000_000);

    // Not done yet: nothing to finalize.
    let actions = c.model.finish_checkpoint_if_done(2_100_000);
    assert!(actions.is_empty());

    let a1 = c
        .model
        .handle_message(
            RunningMessage::TaskCheckpointFinished(finished_report(0, 1)),
            2_200_000,
        )
        .unwrap();
    assert!(matches!(a1[0], ControllerAction::PersistCoordination));
    let _ = c
        .model
        .handle_message(
            RunningMessage::TaskCheckpointFinished(finished_report(1, 1)),
            2_300_000,
        )
        .unwrap();

    let actions = c.model.finish_checkpoint_if_done(3_000_000);
    assert!(matches!(actions[0], ControllerAction::WriteMetadata));
    match &actions[1] {
        ControllerAction::PersistCheckpoint(row) => {
            assert_eq!(row.db_state, DbCheckpointState::Ready);
            assert_eq!(row.finish_time_micros, Some(3_000_000));
            assert!(row.operator_details[0]
                .finished_subtasks
                .iter()
                .all(|f| *f));
            for span in &row.spans {
                assert!(span.finish_micros.is_some(), "span left open");
            }
        }
        _ => panic!("expected a checkpoint row update"),
    }
    assert!(matches!(actions[2], ControllerAction::CompactState));
    assert!(matches!(actions[3], ControllerAction::NotifyDb));
    assert!(c.model.checkpoint_state.is_none());
    assert_eq!(c.model.last_checkpoint_micros, 3_000_000);
}

#[test]
fn checkpoint_with_commit_work_runs_two_phases() {
    let mut c = test_controller();
    let _ = c.model.start_checkpoint(2_000_000, false).unwrap();
    c.model
        .install_checkpoint("cp-test0000000000000001".to_string(), 2_000_000);
    for subtask in 0..2u32 {
        let mut report = finished_report(subtask, 1);
        report.committing_data = Some(vec![subtask as u8]);
        let _ = c
            .model
            .handle_message(RunningMessage::TaskCheckpointFinished(report), 2_200_000)
            .unwrap();
    }
    let actions = c.model.finish_checkpoint_if_done(3_000_000);
    assert!(matches!(actions[0], ControllerAction::WriteMetadata));
    match &actions[1] {
        ControllerAction::PersistCheckpoint(row) => {
            assert_eq!(row.db_state, DbCheckpointState::Committing);
            assert_eq!(row.finish_time_micros, None);
        }
        _ => panic!("expected a checkpoint row update"),
    }
    match &actions[2] {
        ControllerAction::SendCommit {
            epoch,
            committing_data,
        } => {
            assert_eq!(*epoch, 1);
            assert_eq!(committing_data.len(), 1);
            assert_eq!(committing_data[0].operator_id, "op-1");
        }
        _ => panic!("expected a commit request"),
    }
    assert!(matches!(
        c.model.checkpoint_state,
        Some(CheckpointingOrCommittingState::Committing(_))
    ));

    // Both subtasks acknowledge their commits.
    for subtask in 0..2u32 {
        let actions = c
            .model
            .handle_message(
                RunningMessage::TaskCheckpointEvent(TaskCheckpointEvent {
                    time_micros: 4_000_000,
                    operator_id: "op-1".to_string(),
                    subtask_index: subtask,
                    epoch: 1,
                    event_type: TaskCheckpointEventType::FinishedCommit,
                }),
                4_000_000,
            )
            .unwrap();
        assert!(matches!(actions[0], ControllerAction::CompactState));
        assert!(matches!(actions[1], ControllerAction::PersistCoordination));
    }
    let actions = c.model.finish_checkpoint_if_done(5_000_000);
    match &actions[0] {
        ControllerAction::PersistCommit(row) => {
            assert_eq!(row.finish_time_micros, 5_000_000);
        }
        _ => panic!("expected the commit-closing write"),
    }
    assert!(matches!(actions[1], ControllerAction::NotifyDb));
    assert!(c.model.checkpoint_state.is_none());
}

#[test]
fn wrong_epoch_events_are_dropped() {
    // An event or a finished report for a stale epoch leaves the model
    // untouched, in the checkpointing phase and in the commit phase alike.
    let mut c = test_controller();
    let _ = c.model.start_checkpoint(2_000_000, false).unwrap();
    c.model
        .install_checkpoint("cp-test0000000000000002".to_string(), 2_000_000);
    let actions = c
        .model
        .handle_message(
            RunningMessage::TaskCheckpointFinished(finished_report(0, 9)),
            2_200_000,
        )
        .unwrap();
    assert!(actions.is_empty());
    if let Some(CheckpointingOrCommittingState::Checkpointing(cs)) = &c.model.checkpoint_state {
        assert!(cs.operators[0].finished_subtasks.iter().all(|f| !*f));
    } else {
        panic!("expected the checkpointing phase");
    }

    // Move to the commit phase, then replay a stale event there.
    for subtask in 0..2u32 {
        let mut report = finished_report(subtask, 1);
        report.committing_data = Some(vec![1]);
        let _ = c
            .model
            .handle_message(RunningMessage::TaskCheckpointFinished(report), 2_300_000)
            .unwrap();
    }
    let _ = c.model.finish_checkpoint_if_done(3_000_000);
    let actions = c
        .model
        .handle_message(
            RunningMessage::TaskCheckpointEvent(TaskCheckpointEvent {
                time_micros: 4_000_000,
                operator_id: "op-1".to_string(),
                subtask_index: 0,
                epoch: 7,
                event_type: TaskCheckpointEventType::FinishedCommit,
            }),
            4_000_000,
        )
        .unwrap();
    assert!(
        actions.is_empty(),
        "stale commit event must be dropped, not treated as a violation"
    );
}

#[test]
fn finished_commit_during_checkpointing_is_dropped() {
    let mut c = test_controller();
    let _ = c.model.start_checkpoint(2_000_000, false).unwrap();
    c.model
        .install_checkpoint("cp-test0000000000000003".to_string(), 2_000_000);
    let actions = c
        .model
        .handle_message(
            RunningMessage::TaskCheckpointEvent(TaskCheckpointEvent {
                time_micros: 2_100_000,
                operator_id: "op-1".to_string(),
                subtask_index: 0,
                epoch: 1,
                event_type: TaskCheckpointEventType::FinishedCommit,
            }),
            2_100_000,
        )
        .unwrap();
    // The coordination snapshot is still persisted, but the event is not
    // recorded anywhere.
    assert!(matches!(actions[0], ControllerAction::PersistCoordination));
    if let Some(CheckpointingOrCommittingState::Checkpointing(cs)) = &c.model.checkpoint_state {
        assert!(cs.operators[0].events.is_empty());
        assert!(cs.operators[0].finished_subtasks.iter().all(|f| !*f));
    } else {
        panic!("expected the checkpointing phase");
    }
}

#[test]
fn finished_report_during_commit_phase_is_a_violation() {
    let mut c = test_controller();
    let _ = c.model.start_checkpoint(2_000_000, false).unwrap();
    c.model
        .install_checkpoint("cp-test0000000000000004".to_string(), 2_000_000);
    for subtask in 0..2u32 {
        let mut report = finished_report(subtask, 1);
        report.committing_data = Some(vec![1]);
        let _ = c
            .model
            .handle_message(RunningMessage::TaskCheckpointFinished(report), 2_300_000)
            .unwrap();
    }
    let _ = c.model.finish_checkpoint_if_done(3_000_000);
    let r = c.model.handle_message(
        RunningMessage::TaskCheckpointFinished(finished_report(0, 1)),
        4_000_000,
    );
    assert_eq!(r.unwrap_err(), ControllerError::InvariantViolation);
}

#[test]
fn replayed_finished_report_is_idempotent() {
    let mut c = test_controller();
    let _ = c.model.start_checkpoint(2_000_000, false).unwrap();
    c.model
        .install_checkpoint("cp-test0000000000000005".to_string(), 2_000_000);
    let _ = c
        .model
        .handle_message(
            RunningMessage::TaskCheckpointFinished(finished_report(0, 1)),
            2_200_000,
        )
        .unwrap();
    let snapshot = match &c.model.checkpoint_state {
        Some(CheckpointingOrCommittingState::Checkpointing(cs)) => {
            (cs.operators[0].finished_subtasks.clone(), cs.operators[0].events.len())
        }
        _ => panic!("expected the checkpointing phase"),
    };
    let _ = c
        .model
        .handle_message(
            RunningMessage::TaskCheckpointFinished(finished_report(0, 1)),
            2_200_000,
        )
        .unwrap();
    match &c.model.checkpoint_state {
        Some(CheckpointingOrCommittingState::Checkpointing(cs)) => {
            assert_eq!(cs.operators[0].finished_subtasks, snapshot.0);
            assert_eq!(cs.operators[0].events.len(), snapshot.1);
        }
        _ => panic!("expected the checkpointing phase"),
    }
}

#[test]
fn job_finished_broadcast_happens_once() {
    let mut c = test_controller();
    let a1 = c
        .model
        .handle_message(
            RunningMessage::TaskFinished {
                worker_id: WorkerId(10),
                time_micros: 2_000_000,
                node_id: 1,
                subtask_index: 0,
            },
            2_000_000,
        )
        .unwrap();
    assert!(a1.is_empty());
    let a2 = c
        .model
        .handle_message(
            RunningMessage::TaskFinished {
                worker_id: WorkerId(10),
                time_micros: 2_100_000,
                node_id: 1,
                subtask_index: 1,
            },
            2_100_000,
        )
        .unwrap();
    let finishes: Vec<_> = a2
        .iter()
        .filter(|a| matches!(a, ControllerAction::SendJobFinished { .. }))
        .collect();
    assert_eq!(finishes.len(), 1);
    assert!(matches!(c.model.state, JobState::Stopped));
    // A later message never triggers the broadcast again.
    let a3 = c
        .model
        .handle_message(
            RunningMessage::WorkerHeartbeat {
                worker_id: WorkerId(10),
                time_micros: 2_200_000,
            },
            2_200_000,
        )
        .unwrap();
    assert!(a3
        .iter()
        .all(|a| !matches!(a, ControllerAction::SendJobFinished { .. })));
}

#[test]
fn heartbeats_never_move_backwards() {
    let mut c = test_controller();
    let _ = c
        .model
        .handle_message(
            RunningMessage::WorkerHeartbeat {
                worker_id: WorkerId(10),
                time_micros: 9_000_000,
            },
            9_000_000,
        )
        .unwrap();
    assert_eq!(c.model.workers[0].last_heartbeat_micros, 9_000_000);
    let _ = c
        .model
        .handle_message(
            RunningMessage::WorkerHeartbeat {
                worker_id: WorkerId(10),
                time_micros: 5_000_000,
            },
            9_100_000,
        )
        .unwrap();
    assert_eq!(c.model.workers[0].last_heartbeat_micros, 9_000_000);
}

#[test]
fn failed_reports_timeouts_and_task_failures() {
    let mut c = test_controller();
    assert!(!c.model.failed(2_000_000, 30_000_000));
    assert!(c.model.failed(1_000_000 + 30_000_001, 30_000_000));
    let _ = c
        .model
        .handle_message(
            RunningMessage::TaskFailed {
                worker_id: WorkerId(10),
                time_micros: 2_000_000,
                node_id: 1,
                subtask_index: 1,
                reason: "sink unavailable".to_string(),
            },
            2_000_000,
        )
        .unwrap();
    assert!(c.model.failed(2_000_000, 30_000_000));
}

fn cleanup_model(epoch: u32, min_epoch: u32) -> RunningJobModel {
    RunningJobModel {
        job_id: "job-1".to_string(),
        state: JobState::Running,
        program: test_program(),
        checkpoint_state: None,
        epoch,
        min_epoch,
        last_checkpoint_micros: 0,
        workers: vec![WorkerStatus {
            id: WorkerId(10),
            last_heartbeat_micros: 0,
            state: WorkerState::Running,
        }],
        tasks: vec![TaskStatusEntry {
            node_id: 1,
            subtask_index: 0,
            status: TaskStatus {
                state: TaskState::Running,
            },
        }],
        operator_parallelism: std::collections::HashMap::new(),
        last_updated_metrics_micros: 0,
        checkpoint_spans: vec![],
    }
}

#[test]
fn cleanup_needed_boundaries() {
    assert_eq!(cleanup_model(4, 0).cleanup_needed(), None);
    assert_eq!(cleanup_model(5, 0).cleanup_needed(), None);
    assert_eq!(cleanup_model(6, 1).cleanup_needed(), Some(2));
    assert_eq!(cleanup_model(12, 3).cleanup_needed(), Some(8));
}

#[test]
fn start_or_get_span_returns_the_same_span() {
    let mut m = cleanup_model(1, 0);
    let i1 = m.start_or_get_span(JobCheckpointEventType::Checkpointing, 100);
    let i2 = m.start_or_get_span(JobCheckpointEventType::Checkpointing, 999);
    assert_eq!(i1, i2);
    assert_eq!(m.checkpoint_spans.len(), 1);
    assert_eq!(m.checkpoint_spans[0].start_micros, 100);
    m.finish_span(JobCheckpointEventType::Checkpointing, 200);
    m.finish_span(JobCheckpointEventType::Checkpointing, 300);
    assert_eq!(m.checkpoint_spans[0].finish_micros, Some(200));
}

#[test]
fn cleanup_and_checkpointing_exclude_each_other() {
    // With a checkpoint in flight and a cleanup due, the tick spawns no
    // cleanup; once the checkpoint finalizes, the next tick spawns it, and
    // while it runs, no checkpoint starts.
    let mut c = test_controller();
    c.model.epoch = 11;
    c.model.min_epoch = 3;
    let _ = c.model.start_checkpoint(2_000_000, false).unwrap();
    c.model
        .install_checkpoint("cp-test0000000000000006".to_string(), 2_000_000);
    let (_, actions) = c.progress(2_500_000, &pipeline(), None, false).unwrap();
    assert!(actions
        .iter()
        .all(|a| !matches!(a, ControllerAction::StartCleanup(_))));
    assert!(c.cleanup_task.is_none());

    for subtask in 0..2u32 {
        let _ = c
            .model
            .handle_message(
                RunningMessage::TaskCheckpointFinished(finished_report(subtask, 12)),
                2_600_000,
            )
            .unwrap();
    }
    let _ = c.model.finish_checkpoint_if_done(3_000_000);
    assert!(c.model.checkpoint_state.is_none());

    let (_, actions) = c.progress(3_500_000, &pipeline(), None, false).unwrap();
    let plan = actions
        .iter()
        .find_map(|a| match a {
            ControllerAction::StartCleanup(p) => Some(*p),
            _ => None,
        })
        .expect("cleanup should be spawned");
    assert_eq!(plan.new_min, 8);
    assert_eq!(plan.effective_min, 3);
    assert_eq!(plan.cur_epoch, 12);
    assert_eq!(plan.drop_rows_before, None);
    assert!(c.cleanup_task.is_some());

    // While the cleanup runs, the elapsed interval starts no checkpoint.
    c.model.last_checkpoint_micros = 0;
    let _ = c
        .model
        .handle_message(
            RunningMessage::WorkerHeartbeat {
                worker_id: WorkerId(10),
                time_micros: 499_000_000,
            },
            499_000_000,
        )
        .unwrap();
    let (_, actions) = c
        .progress(500_000_000, &pipeline(), None, false)
        .unwrap();
    assert!(actions
        .iter()
        .all(|a| !matches!(a, ControllerAction::StartCheckpoint(_))));
    assert!(c.model.checkpoint_state.is_none());

    // Reaping the successful cleanup raises the retention floor.
    let (_, _) = c
        .progress(500_100_000, &pipeline(), Some(CleanupOutcome::Success), false)
        .unwrap();
    assert_eq!(c.model.min_epoch, 8);
    assert!(c.cleanup_task.is_none());
}

#[test]
fn progress_reports_failure_and_finishing() {
    let mut c = test_controller();
    let r = c.progress(1_000_000 + 31_000_000, &pipeline(), None, false);
    assert_eq!(r.unwrap_err(), ControllerError::WorkerFailed);

    let mut c = test_controller();
    let _ = c
        .model
        .handle_message(
            RunningMessage::TaskFinished {
                worker_id: WorkerId(10),
                time_micros: 1_500_000,
                node_id: 1,
                subtask_index: 0,
            },
            1_500_000,
        )
        .unwrap();
    let (p, _) = c.progress(2_000_000, &pipeline(), None, false).unwrap();
    assert!(matches!(p, ControllerProgress::Finishing));
}

#[test]
fn progress_starts_checkpoint_after_interval() {
    let mut c = test_controller();
    c.model.last_checkpoint_micros = 1_000_000;
    let now = 1_000_000 + 60_000_001;
    let _ = c
        .model
        .handle_message(
            RunningMessage::WorkerHeartbeat {
                worker_id: WorkerId(10),
                time_micros: now - 1,
            },
            now - 1,
        )
        .unwrap();
    let (_, actions) = c.progress(now, &pipeline(), None, false).unwrap();
    let req = actions
        .iter()
        .find_map(|a| match a {
            ControllerAction::StartCheckpoint(req) => Some(*req),
            _ => None,
        })
        .expect("a checkpoint should start");
    assert_eq!(req.epoch, 1);
    assert_eq!(req.timestamp_micros, now);
}

#[test]
fn stop_mode_wire_codes() {
    let c = test_controller();
    assert_eq!(c.stop_job(StopMode::NoStop).stop_mode, 0);
    assert_eq!(c.stop_job(StopMode::Graceful).stop_mode, 1);
    assert_eq!(c.stop_job(StopMode::Checkpoint).stop_mode, 2);
    assert_eq!(c.stop_job(StopMode::Immediate).stop_mode, 3);
}

#[test]
fn send_commit_messages_requires_commit_phase() {
    let c = test_controller();
    assert_eq!(
        c.send_commit_messages().unwrap_err(),
        ControllerError::NotCommitting
    );
}

#[test]
fn generated_checkpoint_ids_are_opaque_and_fresh() {
    let a = arroyo_controller::controller::generate_checkpoint_id();
    let b = arroyo_controller::controller::generate_checkpoint_id();
    assert_eq!(a.len(), 24);
    assert!(a.starts_with("cp-"));
    assert_ne!(a, b);
}

#[test]
fn epoch_that_overflows_the_store_is_rejected() {
    let mut c = test_controller();
    c.model.epoch = 0x7fff_ffff;
    let r = c.model.start_checkpoint(2_000_000, false);
    assert_eq!(r.unwrap_err(), ControllerError::EpochOverflow);
}

#[test]
fn checkpoint_state_done_tracks_acknowledgements() {
    let cs = CheckpointState::new(
        "cp-x".to_string(),
        1,
        0,
        1_000_000,
        &test_program(),
    );
    assert!(!cs.done());
    let committing = cs.committing_state();
    assert!(committing.done(), "no commit work declared means done");
}

#[test]
fn epoch_strictly_increases_across_checkpoint_starts() {
    let mut c = test_controller();
    let first = c.model.start_checkpoint(2_000_000, false).unwrap();
    c.model
        .install_checkpoint("cp-test0000000000000007".to_string(), 2_000_000);
    for subtask in 0..2u32 {
        let _ = c
            .model
            .handle_message(
                RunningMessage::TaskCheckpointFinished(finished_report(subtask, 1)),
                2_200_000,
            )
            .unwrap();
    }
    let _ = c.model.finish_checkpoint_if_done(3_000_000);
    let second = c.model.start_checkpoint(4_000_000, false).unwrap();
    assert_eq!(first.epoch, 1);
    assert_eq!(second.epoch, 2);
    assert!(second.epoch > first.epoch);
}

#[test]
fn config_updates_drive_transitions() {
    // A changed restart nonce forces a restart.
    let mut c = test_controller();
    let mut config = test_config();
    config.restart_nonce = 5;
    let t = Running::handle_config_update(&mut c, config, 0);
    assert!(matches!(
        t,
        Some(RunningTransition::Restarting(RestartMode::Safe))
    ));

    // A parallelism override that disagrees with the actual value forces a
    // rescale.
    let mut c = test_controller();
    let mut config = test_config();
    config.parallelism_overrides = vec![(1, 4)];
    let t = Running::handle_config_update(&mut c, config, 0);
    assert!(matches!(t, Some(RunningTransition::Rescaling)));

    // An agreeing override is adopted.
    let mut c = test_controller();
    let mut config = test_config();
    config.parallelism_overrides = vec![(1, 2)];
    let t = Running::handle_config_update(&mut c, config, 0);
    assert!(t.is_none());
    assert_eq!(c.config.parallelism_overrides, vec![(1, 2)]);

    // While draining, only an immediate stop wish acts.
    let mut c = test_controller();
    let mut config = test_config();
    config.stop_mode = SqlStopMode::Immediate;
    let (actions, stop) = c
        .wait_for_finish_step(JobMessage::ConfigUpdate(config), 2_000_000)
        .unwrap();
    assert!(actions.is_empty());
    assert_eq!(stop.unwrap().stop_mode, 3);
    let (_, stop) = c
        .wait_for_finish_step(JobMessage::ConfigUpdate(test_config()), 2_000_000)
        .unwrap();
    assert!(stop.is_none());
    assert!(!c.finished());
}

#[test]
fn failed_task_stays_failed() {
    // A failed task is terminal until the job restarts: a late finished
    // report neither hides the failure nor triggers the job-finished
    // broadcast.
    let mut c = test_controller();
    let _ = c
        .model
        .handle_message(
            RunningMessage::TaskFailed {
                worker_id: WorkerId(10),
                time_micros: 2_000_000,
                node_id: 1,
                subtask_index: 0,
                reason: "sink unavailable".to_string(),
            },
            2_000_000,
        )
        .unwrap();
    let _ = c
        .model
        .handle_message(
            RunningMessage::TaskFinished {
                worker_id: WorkerId(10),
                time_micros: 2_100_000,
                node_id: 1,
                subtask_index: 1,
            },
            2_100_000,
        )
        .unwrap();
    let actions = c
        .model
        .handle_message(
            RunningMessage::TaskFinished {
                worker_id: WorkerId(10),
                time_micros: 2_200_000,
                node_id: 1,
                subtask_index: 0,
            },
            2_200_000,
        )
        .unwrap();
    assert!(matches!(
        c.model.tasks[0].status.state,
        TaskState::Failed(_)
    ));
    assert!(c.model.failed(2_300_000, 30_000_000));
    assert!(actions.is_empty());
    assert!(matches!(c.model.state, JobState::Running));
}

#[test]
fn commit_acknowledgements_are_persisted() {
    // During the commit phase the coordination snapshot carries the
    // acknowledged subtasks, so every accepted acknowledgement reaches the
    // store before the next event is handled.
    let mut c = test_controller();
    let _ = c.model.start_checkpoint(2_000_000, false).unwrap();
    c.model
        .install_checkpoint("cp-test0000000000000008".to_string(), 2_000_000);
    for subtask in 0..2u32 {
        let mut report = finished_report(subtask, 1);
        report.committing_data = Some(vec![1]);
        let _ = c
            .model
            .handle_message(RunningMessage::TaskCheckpointFinished(report), 2_200_000)
            .unwrap();
    }
    let _ = c.model.finish_checkpoint_if_done(3_000_000);
    match c.model.update_db() {
        Some(CoordinationRowUpdate::Committing(row)) => {
            assert!(row.committed_subtasks.is_empty());
        }
        _ => panic!("expected a commit-progress snapshot"),
    }
    let _ = c
        .model
        .handle_message(
            RunningMessage::TaskCheckpointEvent(TaskCheckpointEvent {
                time_micros: 4_000_000,
                operator_id: "op-1".to_string(),
                subtask_index: 1,
                epoch: 1,
                event_type: TaskCheckpointEventType::FinishedCommit,
            }),
            4_000_000,
        )
        .unwrap();
    match c.model.update_db() {
        Some(CoordinationRowUpdate::Committing(row)) => {
            assert_eq!(row.committed_subtasks.len(), 1);
            assert_eq!(row.committed_subtasks[0].operator_id, "op-1");
            assert_eq!(row.committed_subtasks[0].subtask_index, 1);
        }
        _ => panic!("expected a commit-progress snapshot"),
    }
}
